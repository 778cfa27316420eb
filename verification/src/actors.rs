//! Actors hold state independent from the main application state.
//!
//! Impure logic that interacts with the environment is split away and
//! combined with the relevant piece of state; actors communicate with the
//! main state by sending it messages and by receiving updates from it.

use vstd::prelude::*;

pub mod external;
pub mod popover;

verus! {

/// The implementing actor is able to receive and handle messages.
/// Typically it is the sending end of a channel whose other end sits
/// inside an event loop.
pub trait Destination {
    type Event;

    fn send(&self, event: Self::Event);
}

} // verus!
