//! Commands controlling the debug mode, as received over the debug
//! service interface.

use vstd::prelude::*;

verus! {

/// Turn verbose state tracing on or off.
#[derive(Clone, Copy, Debug, PartialEq, Eq, Structural)]
pub enum Event {
    Enable,
    Disable,
}

} // verus!
