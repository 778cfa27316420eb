//! Actors driven by their own external event sources.

pub mod debug;
