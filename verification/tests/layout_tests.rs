//! Layout-engine scenarios: view transitions, latching, hit tests,
//! geometry.

use squeekboard::action::Action;
use squeekboard::geometry::{Fraction, Point, Transformation};
use squeekboard::imservice::ContentPurpose;
use squeekboard::layout::{
    find_button_place, ActiveButtons, ArrangementKind, Button, ButtonPosition, Label,
    LatchedState, Layout, LayoutData, LayoutState, LayoutView, Margins, Position, Row, Size,
    ViewTransition,
};

fn make_button(name: &str) -> Button {
    Button {
        name: String::from(name),
        size: Size { width: 0, height: 0 },
        outline_name: String::from("test"),
        label: Label::Text(String::from(name)),
        action: Action::SetView(String::from("default")),
        keycodes: Vec::new(),
    }
}

fn sized_button(name: &str, width: i64, height: i64) -> Button {
    Button { size: Size { width, height }, ..make_button(name) }
}

fn layout_with_views(views: Vec<(&str, LayoutView)>) -> Layout {
    Layout {
        state: LayoutState {
            current_view: String::from("base"),
            view_latched: LatchedState::Not,
            active_buttons: ActiveButtons(Vec::new()),
        },
        shape: LayoutData {
            keymaps: Vec::new(),
            kind: ArrangementKind::Base,
            margins: Margins { top: 0, left: 0, right: 0, bottom: 0 },
            views: views
                .into_iter()
                .map(|(name, view)| (String::from(name), (Position { x: 0, y: 0 }, view)))
                .collect(),
            purpose: ContentPurpose::Normal,
        },
    }
}

fn switch_view(view: &LayoutView) -> LayoutView {
    // Views share the structure: switching does not depend on the view
    // shape as long as the switching button is present.
    LayoutView::new(
        view
            .get_rows()
            .iter()
            .map(|(pos, row)| {
                (
                    pos.y,
                    Row::new(
                        row.get_buttons()
                            .iter()
                            .map(|(off, b)| (*off, b.clone()))
                            .collect(),
                    ),
                )
            })
            .collect(),
    )
}

#[test]
fn latch_lock_unlock() {
    let action = Action::LockView {
        lock: "lock".into(),
        unlock: "unlock".into(),
        latches: true,
        looks_locked_from: vec![],
    };

    let r = squeekboard::layout::process_action_for_view(
        &action,
        &String::from("unlock"),
        &LatchedState::Not,
    );
    assert!(matches!(r.0, ViewTransition::ChangeTo(ref v) if v == "lock"));
    assert!(matches!(r.1, LatchedState::FromView(ref v) if v == "unlock"));

    let r = squeekboard::layout::process_action_for_view(
        &action,
        &String::from("lock"),
        &LatchedState::FromView("unlock".into()),
    );
    assert!(matches!(r.0, ViewTransition::NoChange));
    assert!(matches!(r.1, LatchedState::Not));

    let r = squeekboard::layout::process_action_for_view(
        &action,
        &String::from("lock"),
        &LatchedState::Not,
    );
    assert!(matches!(r.0, ViewTransition::ChangeTo(ref v) if v == "unlock"));
    assert!(matches!(r.1, LatchedState::Not));

    let r = squeekboard::layout::process_action_for_view(
        &Action::Erase,
        &String::from("lock"),
        &LatchedState::FromView("base".into()),
    );
    assert!(matches!(r.0, ViewTransition::UnlatchAll));
    assert!(matches!(r.1, LatchedState::Not));
}

fn two_button_view(switch: &Action, submit: &Action) -> LayoutView {
    LayoutView::new(vec![(
        0,
        Row::new(vec![
            (0, Button { action: switch.clone(), ..make_button("switch") }),
            (1, Button { action: submit.clone(), ..make_button("submit") }),
        ]),
    )])
}

#[test]
fn latch_pop_layout() {
    let switch = Action::LockView {
        lock: "locked".into(),
        unlock: "base".into(),
        latches: true,
        looks_locked_from: vec![],
    };
    let submit = Action::Erase;
    let view = two_button_view(&switch, &submit);
    let mut layout = layout_with_views(vec![
        ("base", switch_view(&view)),
        ("locked", view),
    ]);

    // Basic cycle.
    layout.apply_view_transition(&switch);
    assert_eq!(&layout.state.current_view, "locked");
    layout.apply_view_transition(&switch);
    assert_eq!(&layout.state.current_view, "locked");
    layout.apply_view_transition(&submit);
    assert_eq!(&layout.state.current_view, "locked");
    layout.apply_view_transition(&switch);
    assert_eq!(&layout.state.current_view, "base");
    layout.apply_view_transition(&switch);
    // Unlatch.
    assert_eq!(&layout.state.current_view, "locked");
    layout.apply_view_transition(&submit);
    assert_eq!(&layout.state.current_view, "base");
}

#[test]
fn reverse_unlatch_layout() {
    let switch = Action::LockView {
        lock: "locked".into(),
        unlock: "base".into(),
        latches: true,
        looks_locked_from: vec![],
    };
    let unswitch = Action::LockView {
        lock: "locked".into(),
        unlock: "unlocked".into(),
        latches: false,
        looks_locked_from: vec![],
    };
    let submit = Action::Erase;
    let view = two_button_view(&switch, &submit);
    let mut layout = layout_with_views(vec![
        ("base", switch_view(&view)),
        ("locked", switch_view(&view)),
        ("unlocked", view),
    ]);

    layout.apply_view_transition(&switch);
    assert_eq!(&layout.state.current_view, "locked");
    layout.apply_view_transition(&unswitch);
    assert_eq!(&layout.state.current_view, "unlocked");
}

#[test]
fn latch_twopop_layout() {
    let switch = Action::LockView {
        lock: "locked".into(),
        unlock: "base".into(),
        latches: true,
        looks_locked_from: vec![],
    };
    let switch_again = Action::LockView {
        lock: "second".into(),
        unlock: "locked".into(),
        latches: true,
        looks_locked_from: vec![],
    };
    let submit = Action::Erase;
    let view = two_button_view(&switch, &submit);
    let mut layout = layout_with_views(vec![
        ("base", switch_view(&view)),
        ("locked", switch_view(&view)),
        ("second", view),
    ]);

    // Latch twice, then auto-unlatch across two levels.
    layout.apply_view_transition(&switch);
    println!("{:?}", layout.state.view_latched);
    assert_eq!(&layout.state.current_view, "locked");
    layout.apply_view_transition(&switch_again);
    println!("{:?}", layout.state.view_latched);
    assert_eq!(&layout.state.current_view, "second");
    layout.apply_view_transition(&submit);
    println!("{:?}", layout.state.view_latched);
    assert_eq!(&layout.state.current_view, "base");
}

/// Checks indexing of buttons.
#[test]
fn view_has_button() {
    let button = make_button("1");
    let row = Row::new(vec![(1, button)]);
    let view = LayoutView::new(vec![(12, row)]);

    let place = find_button_place(&view, 0, 0);
    match place {
        Some((position, button)) => {
            assert_eq!(position, Position { x: 1, y: 12 });
            assert_eq!(button.name, String::from("1"));
        },
        None => panic!("Expected a place"),
    }

    let view = LayoutView::new(vec![]);
    assert!(find_button_place(&view, 0, 0).is_none());
}

/// Centring moves rows to the middle, and hits resolve to the right
/// button.
#[test]
fn check_centering() {
    //    A B
    // ---bar---
    let view = LayoutView::new(vec![
        (
            0,
            Row::new(vec![
                (0, sized_button("A", 500, 1000)),
                (500, sized_button("B", 500, 1000)),
            ]),
        ),
        (1000, Row::new(vec![(0, sized_button("bar", 3000, 1000))])),
    ]);
    let hit = |x: i64, y: i64| -> Option<(usize, usize)> {
        view.find_button_by_position(&Point {
            x: Fraction::from_int(x),
            y: Fraction::from_int(y),
        })
    };
    // Hits at y=500 land in the top row; its buttons sit centred,
    // so from x=1000 on, A, and from x=1500 on, B.
    assert_eq!(hit(500, 500), Some((0, 0)));
    assert_eq!(hit(1499, 500), Some((0, 0)));
    assert_eq!(hit(1501, 500), Some((0, 1)));
    assert_eq!(hit(2500, 500), Some((0, 1)));
}

/// A point outside the view's bounding box hits nothing.
#[test]
fn hit_outside_is_none() {
    let view = LayoutView::new(vec![(0, Row::new(vec![(0, sized_button("a", 10, 10))]))]);
    let hit = |x: i64, y: i64| -> Option<(usize, usize)> {
        view.find_button_by_position(&Point {
            x: Fraction::from_int(x),
            y: Fraction::from_int(y),
        })
    };
    assert_eq!(hit(-1, 5), None);
    assert_eq!(hit(11, 5), None);
    assert_eq!(hit(5, 11), None);
    assert_eq!(hit(5, 5), Some((0, 0)));
    // A point left of the first button still resolves to it.
    assert_eq!(hit(1, 1), Some((0, 0)));
}

fn assert_frac_eq_int(f: &Fraction, num: i64, den: i64) {
    let expected = Fraction { num: num as i128, den: den as i128 };
    assert!(
        f.same_value(&expected),
        "expected {}/{}, got {}/{}",
        num,
        den,
        f.num,
        f.den,
    );
}

#[test]
fn check_bottom_margin() {
    // Just one button.
    let view = LayoutView::new(vec![(0, Row::new(vec![(0, sized_button("foo", 1, 1))]))]);
    let layout = LayoutData {
        keymaps: Vec::new(),
        kind: ArrangementKind::Base,
        // Lots of bottom margin.
        margins: Margins { top: 0, left: 0, right: 0, bottom: 1 },
        views: vec![(String::from("base"), (Position { x: 0, y: 0 }, view))],
        purpose: ContentPurpose::Normal,
    };
    assert_eq!(layout.calculate_inner_size(), Size { width: 1, height: 1 });
    assert_eq!(layout.calculate_size(), Size { width: 1, height: 2 });
    let transformation = layout.calculate_transformation(Size { width: 2, height: 2 });
    assert_frac_eq_int(&transformation.scale_x, 1, 1);
    assert_frac_eq_int(&transformation.scale_y, 1, 1);
    assert_frac_eq_int(&transformation.origin_x, 1, 2);
    assert_frac_eq_int(&transformation.origin_y, 0, 1);
}

#[test]
fn check_stretching() {
    // Just one button.
    let view = LayoutView::new(vec![(0, Row::new(vec![(0, sized_button("foo", 1, 1))]))]);
    let layout = LayoutData {
        keymaps: Vec::new(),
        kind: ArrangementKind::Base,
        margins: Margins { top: 0, left: 0, right: 0, bottom: 0 },
        views: vec![(String::from("base"), (Position { x: 0, y: 0 }, view))],
        purpose: ContentPurpose::Normal,
    };
    let transformation = layout.calculate_transformation(Size { width: 100, height: 100 });
    assert_frac_eq_int(&transformation.scale_x, 100, 1);
    assert_frac_eq_int(&transformation.scale_y, 100, 1);
    let transformation = layout.calculate_transformation(Size { width: 95, height: 100 });
    assert_frac_eq_int(&transformation.scale_x, 95, 1);
    assert_frac_eq_int(&transformation.scale_y, 95, 1);
    let transformation = layout.calculate_transformation(Size { width: 105, height: 100 });
    assert_frac_eq_int(&transformation.scale_x, 105, 1);
    assert_frac_eq_int(&transformation.scale_y, 100, 1);
    let transformation = layout.calculate_transformation(Size { width: 106, height: 100 });
    assert_frac_eq_int(&transformation.scale_x, 100, 1);
    assert_frac_eq_int(&transformation.scale_y, 100, 1);
}

/// Switching to a view the layout does not have fails and changes
/// nothing.
#[test]
fn set_view_rejects_unknown() {
    let switch = Action::LockView {
        lock: "locked".into(),
        unlock: "base".into(),
        latches: true,
        looks_locked_from: vec![],
    };
    let view = two_button_view(&switch, &Action::Erase);
    let mut layout = layout_with_views(vec![("base", view)]);
    assert!(layout.set_view(String::from("missing")).is_err());
    assert_eq!(&layout.state.current_view, "base");
    assert!(layout.set_view(String::from("base")).is_ok());
}

/// The transform round trip is exact on rationals.
#[test]
fn transform_back() {
    let transform = Transformation {
        origin_x: Fraction::from_int(10),
        origin_y: Fraction::from_int(11),
        scale_x: Fraction::from_int(12),
        scale_y: Fraction::from_int(13),
    };
    let point = Point { x: Fraction::from_int(1), y: Fraction::from_int(1) };
    let there = transform.forward(point);
    let back = transform.reverse(there);
    assert!(back.x.same_value(&Fraction::from_int(1)));
    assert!(back.y.same_value(&Fraction::from_int(1)));
}
