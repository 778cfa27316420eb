//! Visibility-reducer scenarios, driven in milliseconds of a monotonic
//! test clock.

use squeekboard::animation;
use squeekboard::event_loop;
use squeekboard::outputs::{ChangeType, Event as OutputEvent};
use squeekboard::imservice::{ContentHint, ContentPurpose};
use squeekboard::outputs::{Geometry, Millimeter, Mode, OutputId, OutputState, Size, Transform};
use squeekboard::panel::PixelSize;
use squeekboard::state::visibility;
use squeekboard::state::{
    Application, Event, InputMethod, InputMethodDetails, LayoutChoice, LayoutSource, Presence,
};

fn imdetails_new() -> InputMethodDetails {
    InputMethodDetails { purpose: ContentPurpose::Normal, hint: ContentHint { bits: 0 } }
}

fn application_with_fake_output(start: u64) -> Application {
    let id = OutputId(1);
    let mut app = Application::new(start);
    app.outputs.push((
        id,
        OutputState { current_mode: None, geometry: None, scale: 1 },
    ));
    app.preferred_output = Some(id);
    app
}

fn visible(app: &Application, now: u64) -> bool {
    matches!(app.get_outcome(now).panel, animation::Outcome::Visible { .. })
}

/// Anti-flicker: no hiding on quick successive disable/enable pairs.
#[test]
fn avoid_hide() {
    let start: u64 = 10_000;
    let mut now = start;
    let mut state = application_with_fake_output(start);
    state.im = InputMethod::Active(imdetails_new());
    state.physical_keyboard = Presence::Missing;
    state.visibility_override = visibility::State::NotForced;

    let state = state.apply_event(Event::InputMethod(InputMethod::InactiveSince(now)), now);
    // Check 100 ms at 1 ms intervals. It should remain visible.
    for _i in 0..100 {
        now += 1;
        assert!(
            visible(&state, now),
            "Hidden when it should remain visible: {:?}",
            now - start,
        );
    }

    let state = state.apply_event(Event::InputMethod(InputMethod::Active(imdetails_new())), now);
    assert!(visible(&state, now));
}

/// Make sure that hiding works when the input method goes away.
#[test]
fn hides_when_input_method_leaves() {
    let start: u64 = 10_000;
    let mut now = start;
    let mut state = application_with_fake_output(start);
    state.im = InputMethod::Active(imdetails_new());
    state.physical_keyboard = Presence::Missing;
    state.visibility_override = visibility::State::NotForced;

    let state = state.apply_event(Event::InputMethod(InputMethod::InactiveSince(now)), now);

    while visible(&state, now) {
        now += 1;
        assert!(now < start + 250, "Hiding too slow: {:?}", now - start);
    }
}

/// Check against the false-showing bug: it hides and does not appear
/// again.
#[test]
fn false_show() {
    let start: u64 = 10_000;
    let mut now = start;
    let mut state = application_with_fake_output(start);
    state.im = InputMethod::Active(imdetails_new());
    state.physical_keyboard = Presence::Missing;
    state.visibility_override = visibility::State::NotForced;

    // This reflects the sequence from the compositor:
    // disable, disable, enable, disable, all in a single batch.
    let state = state.apply_event(Event::InputMethod(InputMethod::InactiveSince(now)), now);
    let state = state.apply_event(Event::InputMethod(InputMethod::InactiveSince(now)), now);
    let state = state.apply_event(Event::InputMethod(InputMethod::Active(imdetails_new())), now);
    let state = state.apply_event(Event::InputMethod(InputMethod::InactiveSince(now)), now);

    while visible(&state, now) {
        now += 1;
        assert!(now < start + 250, "Still not hidden: {:?}", now - start);
    }

    // One second without appearing again.
    for _i in 0..1000 {
        now += 1;
        assert!(
            matches!(state.get_outcome(now).panel, animation::Outcome::Hidden),
            "Appeared unnecessarily: {:?}",
            now - start,
        );
    }
}

#[test]
fn force_visible() {
    let start: u64 = 10_000;
    let mut now = start;
    let mut state = application_with_fake_output(start);
    state.im = InputMethod::InactiveSince(now);
    state.physical_keyboard = Presence::Missing;
    state.visibility_override = visibility::State::NotForced;
    now += 1_000;

    let state = state.apply_event(Event::Visibility(visibility::Event::ForceVisible), now);
    assert!(visible(&state, now), "Failed to show: {:?}", now - start);

    now += 1_000;
    let state = state.apply_event(Event::InputMethod(InputMethod::Active(imdetails_new())), now);
    now += 1_000;
    let state = state.apply_event(Event::InputMethod(InputMethod::InactiveSince(now)), now);
    now += 1_000;

    assert!(
        matches!(state.get_outcome(now).panel, animation::Outcome::Hidden),
        "Failed to release forced visibility: {:?}",
        now - start,
    );
}

#[test]
fn keyboard_present() {
    let start: u64 = 10_000;
    let mut now = start;
    let mut state = application_with_fake_output(start);
    state.im = InputMethod::Active(imdetails_new());
    state.physical_keyboard = Presence::Missing;
    state.visibility_override = visibility::State::NotForced;
    now += 1_000;

    let state = state.apply_event(Event::PhysicalKeyboard(Presence::Present), now);
    assert!(
        matches!(state.get_outcome(now).panel, animation::Outcome::Hidden),
        "Failed to hide: {:?}",
        now - start,
    );

    now += 1_000;
    let state = state.apply_event(Event::InputMethod(InputMethod::InactiveSince(now)), now);
    now += 1_000;
    let state = state.apply_event(Event::InputMethod(InputMethod::Active(imdetails_new())), now);

    assert!(
        matches!(state.get_outcome(now).panel, animation::Outcome::Hidden),
        "Failed to remain hidden: {:?}",
        now - start,
    );

    now += 1_000;
    let state = state.apply_event(Event::PhysicalKeyboard(Presence::Missing), now);

    assert!(visible(&state, now), "Failed to appear: {:?}", now - start);
}

/// The height derivation for a 720×1440 output with 65×130 mm of glass
/// at scale 2.
#[test]
fn size_l5() {
    let output = OutputState {
        current_mode: Some(Mode { width: 720, height: 1440 }),
        geometry: Some(Geometry {
            transform: Transform::Normal,
            phys_size: Size {
                width: Some(Millimeter(65)),
                height: Some(Millimeter(130)),
            },
        }),
        scale: 2,
    };
    let got = Application::get_preferred_height_and_arrangement(&output);
    assert_eq!(
        got,
        Some((
            PixelSize { scale_factor: 2, pixels: 420 },
            squeekboard::layout::ArrangementKind::Base,
        )),
    );
}

/// The outcome is a pure function of state and time: two calls with the
/// same inputs return equal outcomes.
#[test]
fn outcome_is_pure() {
    let start: u64 = 5_000;
    let state = application_with_fake_output(start);
    let a = state.get_outcome(start + 42);
    let b = state.get_outcome(start + 42);
    assert_eq!(format!("{:?}", a), format!("{:?}", b));
}

/// A diff between equal outcomes never asks for a layout change, and
/// the visibility commands reproduce the new outcome.
#[test]
fn diff_to_self_keeps_layout() {
    let start: u64 = 5_000;
    let mut state = application_with_fake_output(start);
    state.im = InputMethod::Active(imdetails_new());
    let outcome = state.get_outcome(start);
    let commands = outcome.get_commands_to_reach(&outcome);
    assert!(commands.layout_selection.is_none());
    assert!(matches!(
        commands.panel_visibility,
        Some(squeekboard::panel::Command::Show { .. })
    ));
    assert_eq!(commands.dbus_visible_set, Some(true));
}

/// Hidden-to-visible sets every command, including the layout.
#[test]
fn diff_from_hidden_sets_layout() {
    let start: u64 = 5_000;
    let mut state = application_with_fake_output(start);
    state.im = InputMethod::Active(imdetails_new());
    let hidden = squeekboard::state::Outcome {
        panel: animation::Outcome::Hidden,
        im: InputMethod::InactiveSince(start),
    };
    let shown = state.get_outcome(start);
    let commands = hidden.get_commands_to_reach(&shown);
    assert!(commands.layout_selection.is_some());
    assert_eq!(commands.dbus_visible_set, Some(true));
}

/// Removing the preferred output falls back to a remaining one;
/// removing the last goes dark.
#[test]
fn output_removal_falls_back() {
    let start: u64 = 1_000;
    let state = Application::new(start);
    let plain = OutputState { current_mode: None, geometry: None, scale: 1 };
    let state = state.apply_event(
        Event::Output(OutputEvent { output: OutputId(1), change: ChangeType::Altered(plain) }),
        start,
    );
    let state = state.apply_event(
        Event::Output(OutputEvent { output: OutputId(2), change: ChangeType::Altered(plain) }),
        start,
    );
    assert_eq!(state.preferred_output, Some(OutputId(1)));
    let state = state.apply_event(
        Event::Output(OutputEvent { output: OutputId(1), change: ChangeType::Removed }),
        start,
    );
    assert_eq!(state.preferred_output, Some(OutputId(2)));
    let state = state.apply_event(
        Event::Output(OutputEvent { output: OutputId(2), change: ChangeType::Removed }),
        start,
    );
    assert_eq!(state.preferred_output, None);
    assert!(matches!(state.get_outcome(start).panel, animation::Outcome::Hidden));
}

/// The layout choice replaces the overlay; an overlay changes the shown
/// name.
#[test]
fn overlay_and_layout_choice() {
    let start: u64 = 1_000;
    let state = application_with_fake_output(start);
    let state = state.apply_event(
        Event::OverlayChanged(squeekboard::popover::LayoutId::Local(String::from("emoji"))),
        start,
    );
    let (name, overlay) = state.get_layout_names();
    assert_eq!(name, String::from("us"));
    assert_eq!(overlay, Some(String::from("emoji")));
    let state = state.apply_event(
        Event::LayoutChoice(LayoutChoice {
            name: String::from("de"),
            source: LayoutSource::Xkb,
        }),
        start,
    );
    let (name, overlay) = state.get_layout_names();
    assert_eq!(name, String::from("de"));
    assert_eq!(overlay, None);
}

/// The source string `xkb` selects the system keymap database.
#[test]
fn layout_source_from_string() {
    assert!(matches!(LayoutSource::from(String::from("xkb")), LayoutSource::Xkb));
    assert!(matches!(
        LayoutSource::from(String::from("gsettings")),
        LayoutSource::Other(ref s) if s == "gsettings"
    ));
}

/// A timeout event is recognisable and otherwise inert.
#[test]
fn timeout_event_round_trip() {
    let ev = Event::new_timeout_reached(77);
    assert_eq!(ev.get_timeout_reached(), Some(77));
    let other = Event::PhysicalKeyboard(Presence::Missing);
    assert_eq!(other.get_timeout_reached(), None);
}

/// The event-loop kernel schedules a wake for the hide deadline and
/// none once it has passed.
#[test]
fn kernel_schedules_wake() {
    let start: u64 = 10_000;
    let mut app = application_with_fake_output(start);
    app.im = InputMethod::Active(imdetails_new());
    let loop_state = event_loop::State::new(app, None);
    let (loop_state, commands) = event_loop::handle_event(
        loop_state,
        Event::InputMethod(InputMethod::InactiveSince(start)),
        start,
    );
    assert_eq!(loop_state.scheduled_wakeup, Some(start + 200));
    assert!(commands.panel_visibility.is_some());
    let (loop_state, _commands) = event_loop::handle_event(
        loop_state,
        Event::TimeoutReached(start + 200),
        start + 200,
    );
    assert_eq!(loop_state.scheduled_wakeup, None);
    assert!(matches!(
        loop_state.actor_state.get_outcome(start + 200).panel,
        animation::Outcome::Hidden
    ));
}
