//! Attributes the input method attaches to a focused text field.

use vstd::prelude::*;

verus! {

/// Bit set of content hints (completion, lowercase, latin, …) carried
/// through from the input-method protocol.  The panel logic only stores
/// and forwards it.
#[derive(Clone, Copy, Debug, PartialEq, Eq, Structural)]
pub struct ContentHint {
    pub bits: u32,
}

impl ContentHint {
    pub fn none() -> (r: ContentHint)
        ensures
            r.bits == 0,
    {
        ContentHint { bits: 0 }
    }
}

/// What kind of input the focused field expects; selects layout variants.
#[derive(Clone, Copy, Debug, PartialEq, Eq, Structural)]
pub enum ContentPurpose {
    Normal,
    Alpha,
    Digits,
    Number,
    Phone,
    Url,
    Email,
    Name,
    Password,
    Pin,
    Date,
    Time,
    Datetime,
    Terminal,
}

} // verus!
