//! Application-wide state and the visibility reducer.
//!
//! This is the functional core: incoming events are folded into an
//! [`Application`] value, and the outwardly visible behaviour — whether the
//! panel shows, where, how tall, with which contents — is a pure function
//! of that value and the current time.  The panel stays visible for a
//! short period ([`crate::animation::HIDING_TIMEOUT`]) after each hide
//! request, which prevents flickering on quick successive disable/enable
//! pairs.

use vstd::prelude::*;

use crate::actors::external::debug;
use crate::animation;
use crate::animation::{Contents, ContentsV, PanelV};
use crate::commands::{Commands, CommandsV, SetLayout};
use crate::imservice::{ContentHint, ContentPurpose};
use crate::layout::ArrangementKind;
use crate::outputs;
use crate::outputs::{OutputId, OutputState};
use crate::panel;
use crate::panel::{spec_scaled_ceiling, PixelSize};
use crate::popover::{LayoutId, LayoutIdV};

pub mod visibility;

verus! {

/// All times are in milliseconds of an arbitrary monotonic clock.  Keeping
/// them below this bound (about 36 million years) lets every deadline
/// computation stay inside `u64`.
pub const TIME_LIMIT: u64 = 0x0400_0000_0000_0000;

/// Is a physical keyboard plugged in?
#[derive(Clone, Copy, Debug, PartialEq, Eq, Structural)]
pub enum Presence {
    Present,
    Missing,
}

/// Attributes of the focused field, as sent by the input method.
#[derive(Clone, Copy, Debug, PartialEq, Eq, Structural)]
pub struct InputMethodDetails {
    pub hint: ContentHint,
    pub purpose: ContentPurpose,
}

/// Whether an input field has focus, and since when it has not.
#[derive(Clone, Copy, Debug, PartialEq, Eq, Structural)]
pub enum InputMethod {
    Active(InputMethodDetails),
    InactiveSince(u64),
}

/// Where the system layout choice comes from.
#[derive(Clone, Debug)]
pub enum LayoutSource {
    Xkb,
    Other(String),
}

/// Mathematical image of `LayoutSource`.
pub ghost enum LayoutSourceV {
    Xkb,
    Other(Seq<char>),
}

impl View for LayoutSource {
    type V = LayoutSourceV;

    open spec fn view(&self) -> LayoutSourceV {
        match self {
            LayoutSource::Xkb => LayoutSourceV::Xkb,
            LayoutSource::Other(s) => LayoutSourceV::Other(s@),
        }
    }
}

impl vstd::std_specs::convert::FromSpecImpl<String> for LayoutSource {
    open spec fn obeys_from_spec() -> bool {
        true
    }

    open spec fn from_spec(v: String) -> LayoutSource {
        if v@ == "xkb"@ {
            LayoutSource::Xkb
        } else {
            LayoutSource::Other(v)
        }
    }
}

impl From<String> for LayoutSource {
    /// The source string `"xkb"` names the system keymap database; any
    /// other string names a loader-specific source.
    fn from(v: String) -> (r: Self) {
        let is_xkb = v == "xkb".to_owned();
        if is_xkb {
            LayoutSource::Xkb
        } else {
            LayoutSource::Other(v)
        }
    }
}

/// The user's preferred system layout.
#[derive(Clone, Debug)]
pub struct LayoutChoice {
    pub name: String,
    pub source: LayoutSource,
}

/// Mathematical image of `LayoutChoice`.
pub ghost struct LayoutChoiceV {
    pub name: Seq<char>,
    pub source: LayoutSourceV,
}

impl View for LayoutChoice {
    type V = LayoutChoiceV;

    open spec fn view(&self) -> LayoutChoiceV {
        LayoutChoiceV { name: self.name@, source: self.source@ }
    }
}

/// Incoming events: everything that can change the internal state.
#[derive(Clone, Debug)]
pub enum Event {
    InputMethod(InputMethod),
    Visibility(visibility::Event),
    PhysicalKeyboard(Presence),
    Output(outputs::Event),
    LayoutChoice(LayoutChoice),
    OverlayChanged(LayoutId),
    Debug(debug::Event),
    /// Event triggered because a moment in time passed.
    /// Used to animate state transitions; the value is the ideal arrival
    /// time.
    TimeoutReached(u64),
}

/// Mathematical image of `Event`.
pub ghost enum EventV {
    InputMethod(InputMethod),
    Visibility(visibility::Event),
    PhysicalKeyboard(Presence),
    Output(outputs::Event),
    LayoutChoice(LayoutChoiceV),
    OverlayChanged(LayoutIdV),
    Debug(debug::Event),
    TimeoutReached(u64),
}

impl View for Event {
    type V = EventV;

    open spec fn view(&self) -> EventV {
        match self {
            Event::InputMethod(im) => EventV::InputMethod(*im),
            Event::Visibility(e) => EventV::Visibility(*e),
            Event::PhysicalKeyboard(p) => EventV::PhysicalKeyboard(*p),
            Event::Output(e) => EventV::Output(*e),
            Event::LayoutChoice(lc) => EventV::LayoutChoice(lc@),
            Event::OverlayChanged(l) => EventV::OverlayChanged(l@),
            Event::Debug(d) => EventV::Debug(*d),
            Event::TimeoutReached(t) => EventV::TimeoutReached(*t),
        }
    }
}

/// Events the reducer accepts: timestamps within range, well-formed
/// output descriptions.
pub open spec fn event_wf(e: EventV) -> bool {
    match e {
        EventV::InputMethod(InputMethod::InactiveSince(t)) => t <= TIME_LIMIT,
        EventV::Output(oe) => match oe.change {
            outputs::ChangeType::Altered(st) => st.wf(),
            outputs::ChangeType::Removed => true,
        },
        _ => true,
    }
}

impl Event {
    pub fn new_timeout_reached(when: u64) -> (r: Self)
        ensures
            r@ == EventV::TimeoutReached(when),
    {
        Self::TimeoutReached(when)
    }

    pub fn get_timeout_reached(&self) -> (r: Option<u64>)
        ensures
            r == match self@ {
                EventV::TimeoutReached(when) => Some(when),
                _ => None::<u64>,
            },
    {
        match self {
            Self::TimeoutReached(when) => Some(*when),
            _ => None,
        }
    }
}

impl vstd::std_specs::convert::FromSpecImpl<InputMethod> for Event {
    open spec fn obeys_from_spec() -> bool {
        true
    }

    open spec fn from_spec(im: InputMethod) -> Event {
        Event::InputMethod(im)
    }
}

impl From<InputMethod> for Event {
    fn from(im: InputMethod) -> (r: Self) {
        Self::InputMethod(im)
    }
}

impl vstd::std_specs::convert::FromSpecImpl<outputs::Event> for Event {
    open spec fn obeys_from_spec() -> bool {
        true
    }

    open spec fn from_spec(ev: outputs::Event) -> Event {
        Event::Output(ev)
    }
}

impl From<outputs::Event> for Event {
    fn from(ev: outputs::Event) -> (r: Self) {
        Self::Output(ev)
    }
}

/// The outwardly visible state: the panel decision plus a copy of the
/// input-method state.
#[derive(Clone, Debug)]
pub struct Outcome {
    pub panel: animation::Outcome,
    pub im: InputMethod,
}

/// Mathematical image of `Outcome`.
pub ghost struct OutcomeV {
    pub panel: PanelV,
    pub im: InputMethod,
}

impl View for Outcome {
    type V = OutcomeV;

    open spec fn view(&self) -> OutcomeV {
        OutcomeV { panel: self.panel@, im: self.im }
    }
}

/// The actual logic of the program: calculates visibility and input-method
/// hints.  This state tracker can be driven by any event loop.
#[derive(Clone, Debug)]
pub struct Application {
    pub im: InputMethod,
    pub visibility_override: visibility::State,
    pub physical_keyboard: Presence,
    pub debug_mode_enabled: bool,
    /// The output on which the panel should appear.  Stored as part of the
    /// state because it cannot be derived from the rest.
    pub preferred_output: Option<OutputId>,
    /// Known outputs, in order of first appearance; identifiers are
    /// pairwise distinct.
    pub outputs: Vec<(OutputId, OutputState)>,
    /// The system's layout preference; a default is used until one
    /// arrives.
    pub layout_choice: LayoutChoice,
    /// Manual override of the system layout.
    pub overlay_layout: Option<LayoutId>,
}

/// Mathematical image of `Application`; the output list becomes a
/// sequence of key–state pairs.
pub ghost struct AppV {
    pub im: InputMethod,
    pub visibility_override: visibility::State,
    pub physical_keyboard: Presence,
    pub debug_mode_enabled: bool,
    pub preferred_output: Option<OutputId>,
    pub outputs: Seq<(OutputId, OutputState)>,
    pub layout_choice: LayoutChoiceV,
    pub overlay_layout: Option<LayoutIdV>,
}

impl View for Application {
    type V = AppV;

    open spec fn view(&self) -> AppV {
        AppV {
            im: self.im,
            visibility_override: self.visibility_override,
            physical_keyboard: self.physical_keyboard,
            debug_mode_enabled: self.debug_mode_enabled,
            preferred_output: self.preferred_output,
            outputs: self.outputs@,
            layout_choice: self.layout_choice@,
            overlay_layout: match self.overlay_layout {
                Some(ref l) => Some(l@),
                None => None,
            },
        }
    }
}

/// Is `id` a key of the output list?
pub open spec fn outputs_has(outs: Seq<(OutputId, OutputState)>, id: OutputId) -> bool {
    exists|i: int| 0 <= i < outs.len() && outs[i].0 == id
}

/// The state stored under key `id` (meaningful only when present and keys
/// are unique).
pub open spec fn outputs_get(outs: Seq<(OutputId, OutputState)>, id: OutputId) -> OutputState {
    outs[choose|i: int| 0 <= i < outs.len() && outs[i].0 == id].1
}

impl AppV {
    /// Invariants of the application state:
    /// output keys are pairwise distinct, the preferred output (if set)
    /// is a known output, every output description is well-formed, and
    /// the inactivity timestamp is within range.
    pub open spec fn wf(self) -> bool {
        &&& forall|i: int, j: int|
            0 <= i < j < self.outputs.len() ==> (#[trigger] self.outputs[i]).0 != (
            #[trigger] self.outputs[j]).0
        &&& match self.preferred_output {
            Some(id) => outputs_has(self.outputs, id),
            None => true,
        }
        &&& forall|i: int| 0 <= i < self.outputs.len() ==> (#[trigger] self.outputs[i]).1.wf()
        &&& match self.im {
            InputMethod::InactiveSince(t) => t <= TIME_LIMIT,
            InputMethod::Active(_) => true,
        }
    }
}

/// `a - b`, stopping at zero.
pub open spec fn sat_sub(a: int, b: int) -> int {
    if a >= b {
        a - b
    } else {
        0
    }
}

/// How one event changes the application state.
///
/// Input-method folding follows the anti-flicker rules: a repeated
/// "inactive" keeps the older timestamp; going inactive while the user had
/// forced the panel hidden backdates the timestamp so the panel hides at
/// once; any change of active state clears the user's override.
pub open spec fn spec_apply_event(s: AppV, e: EventV, now: u64) -> AppV {
    match e {
        EventV::Debug(dbg) => AppV {
            debug_mode_enabled: match dbg {
                debug::Event::Enable => true,
                debug::Event::Disable => false,
            },
            ..s
        },
        EventV::TimeoutReached(_) => s,
        EventV::Visibility(v) => AppV {
            visibility_override: match v {
                visibility::Event::ForceHidden => visibility::State::ForcedHidden,
                visibility::Event::ForceVisible => visibility::State::ForcedVisible,
            },
            ..s
        },
        EventV::PhysicalKeyboard(presence) => AppV { physical_keyboard: presence, ..s },
        EventV::Output(oe) => spec_apply_output_event(s, oe),
        EventV::InputMethod(new_im) => match (s.im, new_im, s.visibility_override) {
            (InputMethod::Active(_), InputMethod::Active(details), _) => AppV {
                im: InputMethod::Active(details),
                ..s
            },
            // A change of active state also removes the user's override.
            (InputMethod::InactiveSince(_), InputMethod::Active(details), _) => AppV {
                im: InputMethod::Active(details),
                visibility_override: visibility::State::NotForced,
                ..s
            },
            // Avoid triggering the hide animation when the panel was
            // already forced hidden: backdate past the timeout.
            (
                InputMethod::Active(_),
                InputMethod::InactiveSince(_),
                visibility::State::ForcedHidden,
            ) => AppV {
                im: InputMethod::InactiveSince(
                    sat_sub(now as int, 2 * animation::HIDING_TIMEOUT) as u64,
                ),
                visibility_override: visibility::State::NotForced,
                ..s
            },
            (InputMethod::Active(_), InputMethod::InactiveSince(since), _) => AppV {
                im: InputMethod::InactiveSince(since),
                visibility_override: visibility::State::NotForced,
                ..s
            },
            // Still inactive: it was already inactive at the older moment,
            // so the newer timestamp is ignored.
            (InputMethod::InactiveSince(old_since), InputMethod::InactiveSince(_), _) => AppV {
                im: InputMethod::InactiveSince(old_since),
                ..s
            },
        },
        EventV::LayoutChoice(layout_choice) => AppV {
            layout_choice,
            overlay_layout: None,
            ..s
        },
        EventV::OverlayChanged(overlay) => AppV { overlay_layout: Some(overlay), ..s },
    }
}

/// An altered output is updated in place (or appended when new) and
/// adopted as preferred if none was; removing the preferred output makes
/// the first remaining output preferred, if any.
pub open spec fn spec_apply_output_event(s: AppV, oe: outputs::Event) -> AppV {
    match oe.change {
        outputs::ChangeType::Altered(st) => {
            let outs = if outputs_has(s.outputs, oe.output) {
                s.outputs.map_values(
                    |p: (OutputId, OutputState)|
                        if p.0 == oe.output {
                            (oe.output, st)
                        } else {
                            p
                        },
                )
            } else {
                s.outputs.push((oe.output, st))
            };
            AppV {
                outputs: outs,
                preferred_output: match s.preferred_output {
                    None => Some(oe.output),
                    Some(id) => Some(id),
                },
                ..s
            }
        },
        outputs::ChangeType::Removed => {
            let outs = if outputs_has(s.outputs, oe.output) {
                s.outputs.remove(
                    choose|i: int| 0 <= i < s.outputs.len() && s.outputs[i].0 == oe.output,
                )
            } else {
                s.outputs
            };
            AppV {
                outputs: outs,
                preferred_output: if s.preferred_output == Some(oe.output) {
                    if outs.len() > 0 {
                        Some(outs[0].0)
                    } else {
                        None
                    }
                } else {
                    s.preferred_output
                },
                ..s
            }
        },
    }
}

/// Layout and overlay names shown when the panel is up: a system overlay
/// replaces the layout name, a local overlay is named separately.
pub open spec fn spec_layout_names(s: AppV) -> (Seq<char>, Option<Seq<char>>) {
    (
        match s.overlay_layout {
            Some(LayoutIdV::System { name, .. }) => name,
            _ => s.layout_choice.name,
        },
        match s.overlay_layout {
            Some(LayoutIdV::Local(name)) => Some(name),
            _ => None,
        },
    )
}

/// `ceil(a / b)` for positive `b`.
pub open spec fn ceil_div(a: int, b: int) -> int {
    (a + b - 1) / b
}

/// Executable ceiling division on moderate operands.
pub fn ceil_div_u64(a: u64, b: u64) -> (r: u64)
    requires
        1 <= b,
        a < 0x4000_0000_0000_0000,
        b < 0x4000_0000_0000_0000,
    ensures
        r == ceil_div(a as int, b as int),
{
    (a + b - 1) / b
}

/// The panel height (in pixels, with scale) and arrangement for an
/// output:
/// - pixel density is taken from mode width over physical width, with the
///   fallback `720/65`;
/// - the ideal height is `9.48 mm × 4 rows × density`, rounded up;
/// - the `Wide` arrangement is used from 540 logical pixels of width on;
/// - the height is capped by a fixed fraction of the width and by half
///   the output's height.
pub open spec fn spec_preferred_height(o: OutputState) -> Option<(PixelSize, ArrangementKind)> {
    match o.spec_pixel_size() {
        None => None,
        Some(px) => {
            let dens = match o.spec_physical_size() {
                Some(size) => match size.width {
                    Some(mm) => (px.width as int, mm.0 as int),
                    None => (720int, 65int),
                },
                None => (720int, 65int),
            };
            let ideal = ceil_div(3792 * dens.0, 100 * dens.1);
            let abstract_width = spec_scaled_ceiling(px.width, o.scale);
            let arr = if abstract_width < 540 {
                (ArrangementKind::Base, 210int, 360int)
            } else {
                (ArrangementKind::Wide, 172int, 540int)
            };
            let fraction = (arr.1 * (px.width as int)) / arr.2;
            let height = if ideal < fraction {
                ideal
            } else {
                fraction
            };
            let half = px.height as int / 2;
            let capped = if height < half {
                height
            } else {
                half
            };
            Some((PixelSize { scale_factor: o.scale, pixels: capped as u32 }, arr.0))
        },
    }
}

/// The full visibility decision.  With no preferred output the panel is
/// hidden; otherwise user overrides win, then a physical keyboard hides
/// the panel, then the input-method state decides, keeping the panel up
/// for `HIDING_TIMEOUT` after the input method went away.
pub open spec fn spec_outcome(s: AppV, now: u64) -> OutcomeV {
    OutcomeV {
        panel: match s.preferred_output {
            None => PanelV::Hidden,
            Some(output) => {
                let ha = match spec_preferred_height(outputs_get(s.outputs, output)) {
                    Some(ha) => ha,
                    None => (PixelSize { pixels: 0, scale_factor: 1 }, ArrangementKind::Base),
                };
                let names = spec_layout_names(s);
                let visible = PanelV::Visible {
                    output,
                    height: ha.0,
                    contents: ContentsV {
                        kind: ha.1,
                        name: names.0,
                        overlay_name: names.1,
                        purpose: match s.im {
                            InputMethod::Active(details) => details.purpose,
                            InputMethod::InactiveSince(_) => ContentPurpose::Normal,
                        },
                    },
                };
                match (s.physical_keyboard, s.visibility_override) {
                    (_, visibility::State::ForcedHidden) => PanelV::Hidden,
                    (_, visibility::State::ForcedVisible) => visible,
                    (Presence::Present, visibility::State::NotForced) => PanelV::Hidden,
                    (Presence::Missing, visibility::State::NotForced) => match s.im {
                        InputMethod::Active(_) => visible,
                        InputMethod::InactiveSince(since) => {
                            if now < since + animation::HIDING_TIMEOUT {
                                visible
                            } else {
                                PanelV::Hidden
                            }
                        },
                    },
                }
            },
        },
        im: s.im,
    }
}

/// When the next state change is due: the end of the hide delay, if it is
/// still running and no override is in force.
pub open spec fn spec_next_wake(s: AppV, now: u64) -> Option<u64> {
    match (s.visibility_override, s.im) {
        (visibility::State::NotForced, InputMethod::InactiveSince(since)) => {
            if now < since + animation::HIDING_TIMEOUT {
                Some((since + animation::HIDING_TIMEOUT) as u64)
            } else {
                None
            }
        },
        _ => None,
    }
}

/// The commands needed to reach outcome `new` from outcome `old`.
/// Visibility commands are always issued (receivers debounce); the layout
/// selection is issued only when the panel is up and its contents differ
/// from the previous outcome, because acting on it requires file-system
/// lookups.
pub open spec fn spec_commands_to_reach(old: OutcomeV, new: OutcomeV) -> CommandsV {
    CommandsV {
        panel_visibility: match new.panel {
            PanelV::Visible { output, height, .. } => Some(
                panel::Command::Show { output, height },
            ),
            PanelV::Hidden => Some(panel::Command::Hide),
        },
        dbus_visible_set: match new.panel {
            PanelV::Visible { .. } => Some(true),
            PanelV::Hidden => Some(false),
        },
        layout_selection: match new.panel {
            PanelV::Visible { contents: new_contents, .. } => {
                let same = match old.panel {
                    PanelV::Visible { contents, .. } => contents == new_contents,
                    PanelV::Hidden => false,
                };
                if !same {
                    Some(new_contents)
                } else {
                    None
                }
            },
            PanelV::Hidden => None,
        },
    }
}

impl Outcome {
    /// Returns the commands needed to apply changes as required by the new
    /// state.  This implementation doesn't actually take the old state
    /// into account for the visibility commands, instead issuing all the
    /// commands needed to reach the new state; receivers bear the burden
    /// of checking whether the commands end up being no-ops.
    pub fn get_commands_to_reach(&self, new_state: &Self) -> (r: Commands)
        ensures
            r@ == spec_commands_to_reach(self@, new_state@),
    {
        let (dbus_visible_set, panel_visibility) = match &new_state.panel {
            animation::Outcome::Visible { output, height, .. } => (
                Some(true),
                Some(panel::Command::Show { output: *output, height: *height }),
            ),
            animation::Outcome::Hidden => (Some(false), Some(panel::Command::Hide)),
        };

        let layout_selection = match &new_state.panel {
            animation::Outcome::Visible { contents: new_contents, .. } => {
                let same = match &self.panel {
                    animation::Outcome::Visible { contents, .. } => contents.same_as(
                        new_contents,
                    ),
                    animation::Outcome::Hidden => false,
                };
                if !same {
                    Some(SetLayout { description: new_contents.clone() })
                } else {
                    None
                }
            },
            animation::Outcome::Hidden => None,
        };

        Commands { panel_visibility, dbus_visible_set, layout_selection }
    }
}

impl Application {
    /// A conservative default, ignoring the actual state of things.
    /// It will initially show the keyboard for a blink.
    pub fn new(now: u64) -> (r: Self)
        requires
            now <= TIME_LIMIT,
        ensures
            r@.wf(),
            r@.im == InputMethod::InactiveSince(now),
            r@.visibility_override == visibility::State::NotForced,
            r@.physical_keyboard == Presence::Missing,
            r@.debug_mode_enabled == false,
            r@.preferred_output is None,
            r@.outputs.len() == 0,
            r@.layout_choice.name == "us"@,
            r@.layout_choice.source == LayoutSourceV::Xkb,
            r@.overlay_layout is None,
    {
        Self {
            im: InputMethod::InactiveSince(now),
            visibility_override: visibility::State::NotForced,
            physical_keyboard: Presence::Missing,
            debug_mode_enabled: false,
            preferred_output: None,
            outputs: Vec::new(),
            layout_choice: LayoutChoice { name: "us".to_owned(), source: LayoutSource::Xkb },
            overlay_layout: None,
        }
    }

    pub fn apply_event(self, event: Event, now: u64) -> (r: Self)
        requires
            self@.wf(),
            event_wf(event@),
            now <= TIME_LIMIT,
        ensures
            r@ == spec_apply_event(self@, event@, now),
            r@.wf(),
    {
        let ghost pre = self@;
        let mut app = self;
        match event {
            Event::Debug(dbg) => {
                app.debug_mode_enabled = match dbg {
                    debug::Event::Enable => true,
                    debug::Event::Disable => false,
                };
            },
            Event::TimeoutReached(_) => {},
            Event::Visibility(v) => {
                app.visibility_override = match v {
                    visibility::Event::ForceHidden => visibility::State::ForcedHidden,
                    visibility::Event::ForceVisible => visibility::State::ForcedVisible,
                };
            },
            Event::PhysicalKeyboard(presence) => {
                app.physical_keyboard = presence;
            },
            Event::Output(oe) => {
                app = Self::apply_output_event(app, oe);
            },
            Event::InputMethod(new_im) => {
                match (app.im, new_im, app.visibility_override) {
                    (InputMethod::Active(_), InputMethod::Active(details), _) => {
                        app.im = InputMethod::Active(details);
                    },
                    (InputMethod::InactiveSince(_), InputMethod::Active(details), _) => {
                        app.im = InputMethod::Active(details);
                        app.visibility_override = visibility::State::NotForced;
                    },
                    (
                        InputMethod::Active(_),
                        InputMethod::InactiveSince(_),
                        visibility::State::ForcedHidden,
                    ) => {
                        let backdated = if now >= 2 * animation::HIDING_TIMEOUT {
                            now - 2 * animation::HIDING_TIMEOUT
                        } else {
                            0
                        };
                        app.im = InputMethod::InactiveSince(backdated);
                        app.visibility_override = visibility::State::NotForced;
                    },
                    (InputMethod::Active(_), InputMethod::InactiveSince(since), _) => {
                        app.im = InputMethod::InactiveSince(since);
                        app.visibility_override = visibility::State::NotForced;
                    },
                    (InputMethod::InactiveSince(old_since), InputMethod::InactiveSince(_), _) => {
                        app.im = InputMethod::InactiveSince(old_since);
                    },
                }
            },
            Event::LayoutChoice(layout_choice) => {
                app.layout_choice = layout_choice;
                app.overlay_layout = None;
            },
            Event::OverlayChanged(overlay) => {
                app.overlay_layout = Some(overlay);
            },
        }
        app
    }

    /// Folds one output event into the state.
    fn apply_output_event(app: Self, oe: outputs::Event) -> (r: Self)
        requires
            app@.wf(),
            match oe.change {
                outputs::ChangeType::Altered(st) => st.wf(),
                outputs::ChangeType::Removed => true,
            },
        ensures
            r@ == spec_apply_output_event(app@, oe),
            r@.wf(),
    {
        let ghost pre = app@;
        let mut app = app;
        match oe.change {
            outputs::ChangeType::Altered(st) => {
                match Self::find_output_index(&app.outputs, oe.output) {
                    Some(i) => {
                        app.outputs.set(i, (oe.output, st));
                        proof {
                            let spec_outs = pre.outputs.map_values(
                                |p: (OutputId, OutputState)|
                                    if p.0 == oe.output {
                                        (oe.output, st)
                                    } else {
                                        p
                                    },
                            );
                            assert forall|j: int| 0 <= j < spec_outs.len() implies app.outputs@[j]
                                == spec_outs[j] by {
                                if j != i {
                                    assert(pre.outputs[j].0 != oe.output);
                                }
                            }
                            assert(app.outputs@ =~= spec_outs);
                            assert forall|j: int|
                                0 <= j < app.outputs@.len() implies (#[trigger] app.outputs@[j]).0
                                == pre.outputs[j].0 by {}
                        }
                    },
                    None => {
                        app.outputs.push((oe.output, st));
                        proof {
                            assert(!outputs_has(pre.outputs, oe.output));
                        }
                    },
                }
                if app.preferred_output.is_none() {
                    app.preferred_output = Some(oe.output);
                }
                proof {
                    match pre.preferred_output {
                        Some(p) => {
                            let k = choose|k: int|
                                0 <= k < pre.outputs.len() && pre.outputs[k].0 == p;
                            assert(app.outputs@[k].0 == p);
                        },
                        None => {
                            if outputs_has(pre.outputs, oe.output) {
                                let k = choose|k: int|
                                    0 <= k < pre.outputs.len() && pre.outputs[k].0 == oe.output;
                                assert(app.outputs@[k].0 == oe.output);
                            } else {
                                assert(app.outputs@[pre.outputs.len() as int].0 == oe.output);
                            }
                        },
                    }
                }
            },
            outputs::ChangeType::Removed => {
                let removed_preferred = match app.preferred_output {
                    Some(p) => p == oe.output,
                    None => false,
                };
                match Self::find_output_index(&app.outputs, oe.output) {
                    Some(i) => {
                        app.outputs.remove(i);
                        proof {
                            let wi = choose|k: int|
                                0 <= k < pre.outputs.len() && pre.outputs[k].0 == oe.output;
                            assert(pre.outputs[i as int].0 == oe.output);
                            if wi != i {
                                assert(false);
                            }
                            pre.outputs.remove_ensures(i as int);
                            let outs = app.outputs@;
                            assert forall|a: int, b: int|
                                0 <= a < b < outs.len() implies (#[trigger] outs[a]).0 != (
                            #[trigger] outs[b]).0 by {
                                let ma = if a < i as int {
                                    a
                                } else {
                                    a + 1
                                };
                                let mb = if b < i as int {
                                    b
                                } else {
                                    b + 1
                                };
                                assert(outs[a] == pre.outputs[ma]);
                                assert(outs[b] == pre.outputs[mb]);
                            }
                            assert forall|j: int| 0 <= j < outs.len() implies (
                            #[trigger] outs[j]).1.wf() by {
                                let mj = if j < i as int {
                                    j
                                } else {
                                    j + 1
                                };
                                assert(outs[j] == pre.outputs[mj]);
                            }
                            if !removed_preferred {
                                match pre.preferred_output {
                                    Some(p) => {
                                        let k = choose|k: int|
                                            0 <= k < pre.outputs.len() && pre.outputs[k].0 == p;
                                        if k < i as int {
                                            assert(outs[k].0 == p);
                                        } else {
                                            assert(k > i as int);
                                            assert(outs[k - 1].0 == p);
                                        }
                                    },
                                    None => {},
                                }
                            }
                        }
                    },
                    None => {},
                }
                if removed_preferred {
                    if app.outputs.len() > 0 {
                        let first = app.outputs[0].0;
                        app.preferred_output = Some(first);
                        proof {
                            assert(outputs_has(app.outputs@, first));
                        }
                    } else {
                        app.preferred_output = None;
                    }
                }
            },
        }
        app
    }

    /// Index of the entry describing `id`, if one exists.
    fn find_output_index(v: &Vec<(OutputId, OutputState)>, id: OutputId) -> (r: Option<usize>)
        ensures
            match r {
                Some(i) => i < v@.len() && v@[i as int].0 == id,
                None => forall|j: int| 0 <= j < v@.len() ==> (#[trigger] v@[j]).0 != id,
            },
    {
        let mut i: usize = 0;
        while i < v.len()
            invariant
                i <= v@.len(),
                forall|j: int| 0 <= j < i ==> (#[trigger] v@[j]).0 != id,
            decreases v@.len() - i,
        {
            if v[i].0 == id {
                return Some(i);
            }
            i = i + 1;
        }
        None
    }

    /// See [`spec_preferred_height`].
    pub fn get_preferred_height_and_arrangement(output: &OutputState) -> (r: Option<
        (PixelSize, ArrangementKind),
    >)
        requires
            output.wf(),
        ensures
            r == spec_preferred_height(*output),
    {
        match output.get_pixel_size() {
            None => None,
            Some(px) => {
                let (dens_num, dens_den): (u32, u32) = match output.get_physical_size() {
                    Some(size) => match size.width {
                        Some(mm) => (px.width, mm.0),
                        None => (720, 65),
                    },
                    None => (720, 65),
                };
                let ideal: u64 = ceil_div_u64(3792 * dens_num as u64, 100 * dens_den as u64);
                let abstract_width = PixelSize {
                    scale_factor: output.scale,
                    pixels: px.width,
                }.as_scaled_ceiling();
                let (arrangement, frac_num, frac_den): (ArrangementKind, u64, u64) = if abstract_width
                    < 540 {
                    (ArrangementKind::Base, 210, 360)
                } else {
                    (ArrangementKind::Wide, 172, 540)
                };
                let fraction: u64 = (frac_num * px.width as u64) / frac_den;
                let height64: u64 = if ideal < fraction {
                    ideal
                } else {
                    fraction
                };
                let half: u32 = px.height / 2;
                let height: u32 = if height64 < half as u64 {
                    height64 as u32
                } else {
                    half
                };
                Some((PixelSize { scale_factor: output.scale, pixels: height }, arrangement))
            },
        }
    }

    /// Returns the current layout name and overlay name.
    pub fn get_layout_names(&self) -> (r: (String, Option<String>))
        ensures
            (r.0@, match r.1 {
                Some(ref o) => Some(o@),
                None => None::<Seq<char>>,
            }) == spec_layout_names(self@),
    {
        let name = match &self.overlay_layout {
            Some(LayoutId::System { name, .. }) => name.clone(),
            _ => self.layout_choice.name.clone(),
        };
        let overlay = match &self.overlay_layout {
            Some(LayoutId::Local(name)) => Some(name.clone()),
            _ => None,
        };
        (name, overlay)
    }

    /// See [`spec_outcome`].
    pub fn get_outcome(&self, now: u64) -> (r: Outcome)
        requires
            self@.wf(),
        ensures
            r@ == spec_outcome(self@, now),
    {
        let panel = match self.preferred_output {
            None => animation::Outcome::Hidden,
            Some(output) => {
                let idx = match Self::find_output_index(&self.outputs, output) {
                    Some(i) => i,
                    None => {
                        proof {
                            assert(outputs_has(self@.outputs, output));
                            assert(false);
                        }
                        0
                    },
                };
                let ostate = self.outputs[idx].1;
                proof {
                    let wi = choose|k: int|
                        0 <= k < self@.outputs.len() && self@.outputs[k].0 == output;
                    if wi != idx {
                        assert(false);
                    }
                }
                let (height, arrangement) = match Self::get_preferred_height_and_arrangement(
                    &ostate,
                ) {
                    Some(ha) => ha,
                    None => (PixelSize { pixels: 0, scale_factor: 1 }, ArrangementKind::Base),
                };
                let (layout_name, overlay) = self.get_layout_names();
                let purpose = match self.im {
                    InputMethod::Active(details) => details.purpose,
                    InputMethod::InactiveSince(_) => ContentPurpose::Normal,
                };
                let visible = animation::Outcome::Visible {
                    output,
                    height,
                    contents: Contents {
                        kind: arrangement,
                        name: layout_name,
                        overlay_name: overlay,
                        purpose,
                    },
                };
                match (self.physical_keyboard, self.visibility_override) {
                    (_, visibility::State::ForcedHidden) => animation::Outcome::Hidden,
                    (_, visibility::State::ForcedVisible) => visible,
                    (Presence::Present, visibility::State::NotForced) => animation::Outcome::Hidden,
                    (Presence::Missing, visibility::State::NotForced) => match self.im {
                        InputMethod::Active(_) => visible,
                        InputMethod::InactiveSince(since) => {
                            if now < since + animation::HIDING_TIMEOUT {
                                visible
                            } else {
                                animation::Outcome::Hidden
                            }
                        },
                    },
                }
            },
        };
        Outcome { panel, im: self.im }
    }

    /// Returns the next time the outcome has to be recomputed.
    pub fn get_next_wake(&self, now: u64) -> (r: Option<u64>)
        requires
            self@.wf(),
        ensures
            r == spec_next_wake(self@, now),
    {
        match (self.visibility_override, self.im) {
            (visibility::State::NotForced, InputMethod::InactiveSince(since)) => {
                let anim_end = since + animation::HIDING_TIMEOUT;
                if now < anim_end {
                    Some(anim_end)
                } else {
                    None
                }
            },
            _ => None,
        }
    }
}

/// The panel state a receiver ends up in after carrying out a command
/// batch, starting from the panel state of outcome `old`: a `Show`
/// command makes the panel visible with the commanded geometry, taking
/// the contents from the layout-selection command when present and
/// keeping the previous contents otherwise; a `Hide` command hides the
/// panel; no command leaves the panel as it was.
pub open spec fn spec_apply_commands(c: CommandsV, old: OutcomeV) -> PanelV {
    match c.panel_visibility {
        Some(panel::Command::Show { output, height }) => PanelV::Visible {
            output,
            height,
            contents: match c.layout_selection {
                Some(contents) => contents,
                None => match old.panel {
                    PanelV::Visible { contents, .. } => contents,
                    PanelV::Hidden => vstd::pervasive::arbitrary(),
                },
            },
        },
        Some(panel::Command::Hide) => PanelV::Hidden,
        None => old.panel,
    }
}

/// The command diff is complete and minimal: carrying out
/// `old.get_commands_to_reach(new)` starting from `old` reproduces the
/// panel state of `new` exactly, and a diff between equal outcomes never
/// asks for a layout change.
pub proof fn lemma_commands_reach_new_outcome(old: OutcomeV, new: OutcomeV)
    ensures
        spec_apply_commands(spec_commands_to_reach(old, new), old) == new.panel,
        spec_commands_to_reach(new, new).layout_selection is None,
{
}

/// A remembered inactivity instant never changes while the input
/// method stays inactive: repeated inactivity reports keep the older
/// instant, and only an activation replaces the record.
pub proof fn lemma_inactive_instant_stable(s: AppV, e: EventV, now: u64)
    ensures
        match (s.im, spec_apply_event(s, e, now).im) {
            (InputMethod::InactiveSince(t0), InputMethod::InactiveSince(t1)) => t1 == t0,
            _ => true,
        },
{
}

/// The outcome is a pure function of the state and the time: two
/// computations from equal states at the same instant are equal.
pub proof fn lemma_outcome_pure(a: Application, b: Application, now: u64)
    requires
        a@ == b@,
    ensures
        spec_outcome(a@, now) == spec_outcome(b@, now),
{
}

/// Once the input method has been inactive for the whole hide delay, a
/// timeout event leaves the state without a scheduled wake-up: after
/// `apply_event(ev, t1)` has left the input method inactive since `τ ≤
/// t1`, applying `TimeoutReached(t2)` at any `t2 ≥ t1 + HIDING_TIMEOUT`
/// yields a state whose next wake is `None`.
pub proof fn lemma_timeout_settles(s: AppV, ev: EventV, t1: u64, t2: u64)
    requires
        t1 + animation::HIDING_TIMEOUT <= t2,
        match spec_apply_event(s, ev, t1).im {
            InputMethod::InactiveSince(since) => since <= t1,
            InputMethod::Active(_) => false,
        },
    ensures
        spec_next_wake(spec_apply_event(spec_apply_event(s, ev, t1), EventV::TimeoutReached(t2), t2), t2)
            is None,
{
    let s1 = spec_apply_event(s, ev, t1);
    let s2 = spec_apply_event(s1, EventV::TimeoutReached(t2), t2);
    assert(s2 == s1);
}

} // verus!
