//! Identifiers of the layouts offered in the layout-switcher popover.

use vstd::prelude::*;

verus! {

/// A layout the user can switch to from the popover.
#[derive(Clone, Debug)]
pub enum LayoutId {
    /// Affects the system-wide layout setting.
    System { kind: String, name: String },
    /// Only affects what this program displays.
    Local(String),
}

/// Mathematical image of `LayoutId`.
pub ghost enum LayoutIdV {
    System { kind: Seq<char>, name: Seq<char> },
    Local(Seq<char>),
}

impl View for LayoutId {
    type V = LayoutIdV;

    open spec fn view(&self) -> LayoutIdV {
        match self {
            LayoutId::System { kind, name } => LayoutIdV::System { kind: kind@, name: name@ },
            LayoutId::Local(name) => LayoutIdV::Local(name@),
        }
    }
}

} // verus!
