//! Core logic of an on-screen keyboard for Wayland mobile shells.
//!
//! The crate is organised as a functional core: every externally visible
//! decision — whether the panel is shown, on which output, at which height,
//! with which layout, and what a touch on the keyboard does — is computed by
//! pure functions over plain state, and every such function carries a
//! contract checked by Verus.  The imperative shell (GTK, Wayland, DBus)
//! lives outside this crate and only exchanges plain values with it.

pub mod action;
pub mod actors;
pub mod animation;
pub mod commands;
pub mod event_loop;
pub mod geometry;
pub mod keyboard;
pub mod imservice;
pub mod layout;
pub mod outputs;
pub mod panel;
pub mod popover;
pub mod state;
pub mod submission;
pub mod ui_manager;
