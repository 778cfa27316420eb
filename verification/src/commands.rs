//! The commands consumed by the main loop, to be sent out to external
//! components.

use vstd::prelude::*;

use crate::animation::{Contents, ContentsV};
use crate::panel;

verus! {

/// Demand to load and display the described layout.
#[derive(Clone, Debug)]
pub struct SetLayout {
    pub description: Contents,
}

/// One batch of commands produced by folding a single event.
#[derive(Clone, Debug)]
pub struct Commands {
    pub panel_visibility: Option<panel::Command>,
    pub dbus_visible_set: Option<bool>,
    pub layout_selection: Option<SetLayout>,
}

/// Mathematical image of `Commands`.
pub ghost struct CommandsV {
    pub panel_visibility: Option<panel::Command>,
    pub dbus_visible_set: Option<bool>,
    pub layout_selection: Option<ContentsV>,
}

impl View for Commands {
    type V = CommandsV;

    open spec fn view(&self) -> CommandsV {
        CommandsV {
            panel_visibility: self.panel_visibility,
            dbus_visible_set: self.dbus_visible_set,
            layout_selection: match self.layout_selection {
                Some(ref sl) => Some(sl.description@),
                None => None,
            },
        }
    }
}

} // verus!
