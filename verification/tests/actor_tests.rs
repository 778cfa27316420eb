//! Popover actor, submission state machine, and surface sizing.

use squeekboard::action::{Action, Modifier};
use squeekboard::actors::popover::{Event, State};
use squeekboard::geometry::Fraction;
use squeekboard::imservice::ContentPurpose;
use squeekboard::layout::{
    ActiveButtons, ArrangementKind, Button, ButtonPosition, Label, LatchedState, Layout,
    LayoutData, LayoutState, LayoutView, Margins, Position, Row, Size,
};
use squeekboard::layout::seat;
use squeekboard::outputs::{Mode, OutputId, OutputState};
use squeekboard::submission::{Command, ModifierState, SubmitData, Timestamp};
use squeekboard::ui_manager::ManagerState;

#[test]
fn popover_overlay_updates() {
    let state = State::new(true);
    assert!(state.settings_active);
    assert!(state.overlay.is_none());
    let state = state.handle_event(Event::Overlay(Some(String::from("emoji"))));
    assert_eq!(state.overlay, Some(String::from("emoji")));
    let state = state.handle_event(Event::ScreensaverActive(true));
    assert!(!state.settings_active);
    // The overlay survives independent screensaver updates.
    assert_eq!(state.overlay, Some(String::from("emoji")));
    let state = state.handle_event(Event::ScreensaverActive(false));
    assert!(state.settings_active);
}

fn keyboard_layout() -> Layout {
    let key = |name: &str, action: Action| Button {
        name: String::from(name),
        size: Size { width: 10, height: 10 },
        outline_name: String::from("test"),
        label: Label::Text(String::from(name)),
        action,
        keycodes: vec![9],
    };
    let view = |switch_lock: &str| {
        LayoutView::new(vec![(
            0,
            Row::new(vec![
                (
                    0,
                    key(
                        "a",
                        Action::Submit { text: Some(String::from("a")), keys: Vec::new() },
                    ),
                ),
                (
                    10,
                    key(
                        "shift",
                        Action::LockView {
                            lock: String::from(switch_lock),
                            unlock: String::from("base"),
                            latches: true,
                            looks_locked_from: vec![],
                        },
                    ),
                ),
                (20, key("ctrl", Action::ApplyModifier(Modifier::Control))),
            ]),
        )])
    };
    Layout {
        state: LayoutState {
            current_view: String::from("base"),
            view_latched: LatchedState::Not,
            active_buttons: ActiveButtons(Vec::new()),
        },
        shape: LayoutData {
            keymaps: Vec::new(),
            kind: ArrangementKind::Base,
            margins: Margins { top: 0, left: 0, right: 0, bottom: 0 },
            views: vec![
                (String::from("base"), (Position { x: 0, y: 0 }, view("upper"))),
                (String::from("upper"), (Position { x: 0, y: 0 }, view("upper"))),
            ],
            purpose: ContentPurpose::Normal,
        },
    }
}

fn unit_transform() -> squeekboard::geometry::Transformation {
    squeekboard::geometry::Transformation {
        origin_x: Fraction::from_int(0),
        origin_y: Fraction::from_int(0),
        scale_x: Fraction::from_int(1),
        scale_y: Fraction::from_int(1),
    }
}

/// A press submits the text and records the button; releasing it
/// reports the same key and empties the pressed list.
#[test]
fn press_then_release() {
    let mut layout = keyboard_layout();
    let mut mods = ModifierState::new();
    let t = unit_transform();
    let cmds = seat::depress(&mut layout, 5, 5, &t, Timestamp(1));
    assert_eq!(cmds.len(), 1);
    match &cmds[0] {
        Command::Press { key, data, time, .. } => {
            assert_eq!(key.view, String::from("base"));
            assert_eq!((key.row, key.position_in_row), (0, 0));
            assert!(matches!(data, SubmitData::Text(t) if t == "a"));
            assert_eq!(*time, Timestamp(1));
        },
        other => panic!("expected a press, got {:?}", other),
    }
    assert_eq!(layout.state.active_buttons.0.len(), 1);

    let pos = ButtonPosition { view: String::from("base"), row: 0, position_in_row: 0 };
    let cmds = seat::handle_release_key(&mut layout, &mut mods, None, false, Timestamp(2), &pos);
    assert_eq!(cmds.len(), 1);
    assert!(matches!(&cmds[0], Command::Release { key, .. } if key.position_in_row == 0));
    assert_eq!(layout.state.active_buttons.0.len(), 0);
}

/// A modifier release locks the modifier; the next one drops it.
#[test]
fn modifier_toggles() {
    let mut layout = keyboard_layout();
    let mut mods = ModifierState::new();
    let pos = ButtonPosition { view: String::from("base"), row: 0, position_in_row: 2 };
    let cmds = seat::handle_release_key(&mut layout, &mut mods, None, false, Timestamp(1), &pos);
    assert!(matches!(&cmds[0], Command::AddModifier { modifier: Modifier::Control, .. }));
    assert!(mods.control);
    let cmds = seat::handle_release_key(&mut layout, &mut mods, None, false, Timestamp(2), &pos);
    assert!(matches!(&cmds[0], Command::DropModifier { .. }));
    assert!(!mods.control);
}

/// Dragging from one key to another releases the first and presses the
/// second; dragging out releases everything.
#[test]
fn drag_slides_over_keys() {
    let mut layout = keyboard_layout();
    let mut mods = ModifierState::new();
    let t = unit_transform();
    let ui = squeekboard::layout::UIBackend { widget_to_layout: unit_transform() };

    let _ = seat::depress(&mut layout, 5, 5, &t, Timestamp(1));
    assert_eq!(layout.state.active_buttons.0.len(), 1);

    // Drag within the same key: nothing changes.
    let cmds = seat::drag(&mut layout, &mut mods, 6, 6, &ui, true, Timestamp(2));
    assert_eq!(cmds.len(), 0);
    assert_eq!(layout.state.active_buttons.0.len(), 1);

    // Drag onto the modifier key: "a" is released, "ctrl" pressed.
    let cmds = seat::drag(&mut layout, &mut mods, 25, 5, &ui, true, Timestamp(3));
    assert!(matches!(&cmds[0], Command::Release { key, .. } if key.position_in_row == 0));
    assert_eq!(layout.state.active_buttons.0.len(), 1);
    assert_eq!(layout.state.active_buttons.0[0].0.position_in_row, 2);

    // Drag out of the keyboard: everything is released.
    let cmds = seat::drag(&mut layout, &mut mods, 500, 500, &ui, true, Timestamp(4));
    assert!(cmds.len() >= 1);
    assert_eq!(layout.state.active_buttons.0.len(), 0);
}

/// The latched view follows a drag-released lock key.
#[test]
fn release_lock_latches() {
    let mut layout = keyboard_layout();
    let mut mods = ModifierState::new();
    let pos = ButtonPosition { view: String::from("base"), row: 0, position_in_row: 1 };
    let _ = seat::handle_press_key(&mut layout, Timestamp(1), &pos);
    let _ = seat::handle_release_key(&mut layout, &mut mods, None, false, Timestamp(2), &pos);
    assert_eq!(layout.state.current_view, String::from("upper"));
    assert!(matches!(&layout.state.view_latched, LatchedState::FromView(v) if v == "base"));
}

/// Releasing the preferences key with a UI and the switcher at hand
/// asks for the popover over the key's widget-space box.
#[test]
fn preferences_key_opens_popover() {
    let prefs = Button {
        name: String::from("prefs"),
        size: Size { width: 10, height: 10 },
        outline_name: String::from("test"),
        label: Label::Text(String::from("prefs")),
        action: Action::ShowPreferences,
        keycodes: Vec::new(),
    };
    let view = LayoutView::new(vec![(0, Row::new(vec![(0, prefs)]))]);
    let mut layout = Layout {
        state: LayoutState {
            current_view: String::from("base"),
            view_latched: LatchedState::Not,
            active_buttons: ActiveButtons(Vec::new()),
        },
        shape: LayoutData {
            keymaps: Vec::new(),
            kind: ArrangementKind::Base,
            margins: Margins { top: 0, left: 0, right: 0, bottom: 0 },
            views: vec![(String::from("base"), (Position { x: 0, y: 0 }, view))],
            purpose: ContentPurpose::Normal,
        },
    };
    let mut mods = ModifierState::new();
    let pos = ButtonPosition { view: String::from("base"), row: 0, position_in_row: 0 };
    let ui = squeekboard::layout::UIBackend {
        widget_to_layout: squeekboard::geometry::Transformation {
            origin_x: Fraction::from_int(3),
            origin_y: Fraction::from_int(4),
            scale_x: Fraction::from_int(2),
            scale_y: Fraction::from_int(2),
        },
    };
    // Without the switcher: no popover demand.
    let cmds =
        seat::handle_release_key(&mut layout, &mut mods, Some(&ui), false, Timestamp(1), &pos);
    assert!(cmds.is_empty());
    let cmds =
        seat::handle_release_key(&mut layout, &mut mods, Some(&ui), true, Timestamp(1), &pos);
    match &cmds[0] {
        Command::ShowPreferences { bounds } => {
            assert!(bounds.x.same_value(&Fraction::from_int(3)));
            assert!(bounds.y.same_value(&Fraction::from_int(4)));
            assert!(bounds.width.same_value(&Fraction::from_int(20)));
            assert!(bounds.height.same_value(&Fraction::from_int(20)));
        },
        other => panic!("expected the popover demand, got {:?}", other),
    }
}

/// The pressed list answers queries with the stored key state.
#[test]
fn active_buttons_get() {
    let mut layout = keyboard_layout();
    let pos = ButtonPosition { view: String::from("base"), row: 0, position_in_row: 0 };
    let released = layout.state.active_buttons.get(&pos);
    assert!(matches!(
        released.pressed,
        squeekboard::keyboard::PressType::Released
    ));
    let _ = seat::handle_press_key(&mut layout, Timestamp(1), &pos);
    let pressed = layout.state.active_buttons.get(&pos);
    assert!(matches!(
        pressed.pressed,
        squeekboard::keyboard::PressType::Pressed
    ));
    assert_eq!(pressed.keycodes, vec![9]);
}

/// Pressing an already-pressed button submits again but keeps a single
/// entry in the pressed list.
#[test]
fn double_press_submits_again() {
    let mut layout = keyboard_layout();
    let pos = ButtonPosition { view: String::from("base"), row: 0, position_in_row: 0 };
    let first = seat::handle_press_key(&mut layout, Timestamp(1), &pos);
    let second = seat::handle_press_key(&mut layout, Timestamp(2), &pos);
    assert_eq!(first.len(), 1);
    assert_eq!(second.len(), 1);
    assert_eq!(layout.state.active_buttons.0.len(), 1);
}

/// Releasing everything reports each pressed key once, in press order,
/// and empties the list.
#[test]
fn release_all_reports_everything() {
    let mut layout = keyboard_layout();
    let mut mods = ModifierState::new();
    let a = ButtonPosition { view: String::from("base"), row: 0, position_in_row: 0 };
    let shift = ButtonPosition { view: String::from("base"), row: 0, position_in_row: 1 };
    let _ = seat::handle_press_key(&mut layout, Timestamp(1), &a);
    let _ = seat::handle_press_key(&mut layout, Timestamp(2), &shift);
    assert_eq!(layout.state.active_buttons.0.len(), 2);
    let cmds = seat::release_all_only(&mut layout, &mut mods, Timestamp(3));
    // The submitting key reports a release; the lock key only switches.
    assert_eq!(cmds.len(), 1);
    assert!(matches!(&cmds[0], Command::Release { key, .. } if key.position_in_row == 0));
    assert_eq!(layout.state.active_buttons.0.len(), 0);
    assert_eq!(layout.state.current_view, String::from("upper"));
}

/// Surface sizing reacts to mode changes of the tracked output only.
#[test]
fn surface_height_follows_output() {
    let id = OutputId(7);
    let initial = OutputState {
        current_mode: Some(Mode { width: 360, height: 720 }),
        geometry: None,
        scale: 1,
    };
    let manager = ManagerState { current_output: Some((id, initial)) };
    assert_eq!(manager.get_perceptual_height(), Some(210));

    // Another output: ignored.
    let (manager, height) = manager.handle_output_change(OutputId(8), Some(initial));
    assert_eq!(height, None);

    // The tracked output grows and gains density data: the height
    // changes.
    let bigger = OutputState {
        current_mode: Some(Mode { width: 720, height: 1440 }),
        geometry: Some(squeekboard::outputs::Geometry {
            transform: squeekboard::outputs::Transform::Normal,
            phys_size: squeekboard::outputs::Size {
                width: Some(squeekboard::outputs::Millimeter(65)),
                height: Some(squeekboard::outputs::Millimeter(130)),
            },
        }),
        scale: 1,
    };
    let (manager, height) = manager.handle_output_change(id, Some(bigger));
    assert_eq!(height, Some(420));
    assert_eq!(manager.get_perceptual_height(), Some(420));
}
