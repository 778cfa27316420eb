//! What the layout engine asks the text-submission sink to do.
//!
//! The engine never talks to the compositor itself: each touch handler
//! returns a list of [`Command`] values, and the shell forwards them to
//! the virtual keyboard or input-method connection, in order.

use vstd::prelude::*;

use crate::action::Modifier;
use crate::geometry::FracBounds;
use crate::layout::{ButtonPosition, ButtonPositionV};

verus! {

/// A point in time, in milliseconds, as stamped on input events.
#[derive(Clone, Copy, Debug, PartialEq, Eq, Structural)]
pub struct Timestamp(pub u32);

/// What a press enters into the focused field.
#[derive(Clone, Debug)]
pub enum SubmitData {
    /// Enter this text.
    Text(String),
    /// Enter the keycodes attached to the button.
    Keycodes,
    /// Delete backwards.
    Erase,
}

/// Mathematical image of `SubmitData`.
pub ghost enum SubmitDataV {
    Text(Seq<char>),
    Keycodes,
    Erase,
}

impl View for SubmitData {
    type V = SubmitDataV;

    open spec fn view(&self) -> SubmitDataV {
        match self {
            SubmitData::Text(t) => SubmitDataV::Text(t@),
            SubmitData::Keycodes => SubmitDataV::Keycodes,
            SubmitData::Erase => SubmitDataV::Erase,
        }
    }
}

/// Which modifiers the sink currently holds locked.  The engine owns this
/// record: it changes exactly when an `AddModifier` or `DropModifier`
/// command is emitted, so it always mirrors the sink.
#[derive(Clone, Copy, Debug, PartialEq, Eq, Structural)]
pub struct ModifierState {
    pub control: bool,
    pub alt: bool,
}

/// Is the modifier active in this state?
pub open spec fn spec_modifier_active(m: ModifierState, which: Modifier) -> bool {
    match which {
        Modifier::Control => m.control,
        Modifier::Alt => m.alt,
    }
}

/// The state after locking or releasing one modifier.
pub open spec fn spec_with_modifier(m: ModifierState, which: Modifier, active: bool) -> ModifierState {
    match which {
        Modifier::Control => ModifierState { control: active, ..m },
        Modifier::Alt => ModifierState { alt: active, ..m },
    }
}

impl ModifierState {
    pub fn new() -> (r: ModifierState)
        ensures
            !r.control,
            !r.alt,
    {
        ModifierState { control: false, alt: false }
    }

    pub fn is_active(&self, which: Modifier) -> (r: bool)
        ensures
            r == spec_modifier_active(*self, which),
    {
        match which {
            Modifier::Control => self.control,
            Modifier::Alt => self.alt,
        }
    }

    pub fn set_active(&mut self, which: Modifier, active: bool)
        ensures
            *final(self) == spec_with_modifier(*old(self), which, active),
    {
        match which {
            Modifier::Control => {
                self.control = active;
            },
            Modifier::Alt => {
                self.alt = active;
            },
        }
    }
}

/// One demand on the submission sink or the UI, produced by a touch
/// handler.  The key is identified by its stable position, the same for
/// press and release.
#[derive(Clone, Debug)]
pub enum Command {
    Press { key: ButtonPosition, data: SubmitData, keycodes: Vec<u32>, time: Timestamp },
    Release { key: ButtonPosition, time: Timestamp },
    AddModifier { key: ButtonPosition, modifier: Modifier, time: Timestamp },
    DropModifier { key: ButtonPosition, time: Timestamp },
    /// Present the layout-switcher popover over the given widget-space
    /// bounds.
    ShowPreferences { bounds: FracBounds },
}

/// Mathematical image of `Command`.
pub ghost enum CommandV {
    Press { key: ButtonPositionV, data: SubmitDataV, keycodes: Seq<u32>, time: Timestamp },
    Release { key: ButtonPositionV, time: Timestamp },
    AddModifier { key: ButtonPositionV, modifier: Modifier, time: Timestamp },
    DropModifier { key: ButtonPositionV, time: Timestamp },
    ShowPreferences { x: crate::geometry::FracV, y: crate::geometry::FracV, width: crate::geometry::FracV, height: crate::geometry::FracV },
}

impl View for Command {
    type V = CommandV;

    open spec fn view(&self) -> CommandV {
        match self {
            Command::Press { key, data, keycodes, time } => CommandV::Press {
                key: key@,
                data: data@,
                keycodes: keycodes@,
                time: *time,
            },
            Command::Release { key, time } => CommandV::Release { key: key@, time: *time },
            Command::AddModifier { key, modifier, time } => CommandV::AddModifier {
                key: key@,
                modifier: *modifier,
                time: *time,
            },
            Command::DropModifier { key, time } => CommandV::DropModifier {
                key: key@,
                time: *time,
            },
            Command::ShowPreferences { bounds } => CommandV::ShowPreferences {
                x: bounds.x@,
                y: bounds.y@,
                width: bounds.width@,
                height: bounds.height@,
            },
        }
    }
}

} // verus!
