//! User-driven overrides of panel visibility.

use vstd::prelude::*;

verus! {

/// A gesture forced the panel up or down.
#[derive(Clone, Copy, Debug, PartialEq, Eq, Structural)]
pub enum Event {
    /// The user requested the panel to show.
    ForceVisible,
    /// The user requested the panel to go down.
    ForceHidden,
}

/// Which interaction touched visibility last.
#[derive(Clone, Copy, Debug, PartialEq, Eq, Structural)]
pub enum State {
    /// Last interaction was the user forcing the panel to go visible.
    ForcedVisible,
    /// Last interaction was the user forcing the panel to hide.
    ForcedHidden,
    /// Last interaction was the input method changing active state.
    NotForced,
}

} // verus!
