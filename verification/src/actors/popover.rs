//! State behind the layout-switcher popover.
//!
//! The popover is opened directly by the UI surface, so it must be able to
//! see which overlay layout has been selected and whether the settings
//! entry should be active; both are pushed into this small state record
//! from elsewhere.  Each field is updated independently, so events applied
//! out of order are tolerated.

use vstd::prelude::*;

verus! {

/// Updates pushed into the popover state.
#[derive(Clone, Debug)]
pub enum Event {
    /// The user-selected overlay layout changed.
    Overlay(Option<String>),
    /// The screen lock engaged or released.
    ScreensaverActive(bool),
}

/// What the popover needs to know when it opens.
#[derive(Clone, Debug)]
pub struct State {
    /// The overlay layout currently chosen, if any.
    pub overlay: Option<String>,
    /// Whether the settings button is active (it is not on the lock screen).
    pub settings_active: bool,
}

/// Mathematical image of `State`.
pub ghost struct StateV {
    pub overlay: Option<Seq<char>>,
    pub settings_active: bool,
}

impl View for State {
    type V = StateV;

    open spec fn view(&self) -> StateV {
        StateV {
            overlay: match self.overlay {
                Some(ref o) => Some(o@),
                None => None,
            },
            settings_active: self.settings_active,
        }
    }
}

/// What one event does to the state: `Overlay` replaces the overlay,
/// `ScreensaverActive(b)` sets `settings_active` to `!b`.
pub open spec fn spec_handle_event(s: StateV, event: Event) -> StateV {
    match event {
        Event::Overlay(overlay) => StateV {
            overlay: match overlay {
                Some(o) => Some(o@),
                None => None,
            },
            ..s
        },
        Event::ScreensaverActive(lock_active) => StateV { settings_active: !lock_active, ..s },
    }
}

impl State {
    pub fn new(settings_active: bool) -> (r: State)
        ensures
            r@.overlay is None,
            r@.settings_active == settings_active,
    {
        State { overlay: None, settings_active }
    }

    pub fn handle_event(self, event: Event) -> (r: State)
        ensures
            r@ == spec_handle_event(self@, event),
    {
        let mut next = self;
        match event {
            Event::Overlay(overlay) => {
                next.overlay = overlay;
            },
            Event::ScreensaverActive(lock_active) => {
                next.settings_active = !lock_active;
            },
        }
        next
    }
}

} // verus!
