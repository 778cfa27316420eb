//! Top-level touch procedures, dispatching to everything.
//!
//! Presses, releases and drags arrive here with a widget-space point and
//! the active transformation.  Each handler updates the layout state and
//! returns the commands the submission sink and the UI have to carry
//! out, in order.

use vstd::prelude::*;

use crate::action::{Action, ActionV};
use crate::geometry::{
    fint, fmul, spec_forward, spec_reverse, twf, Bounds, Point, PointV, TransV, Transformation,
    COORD_LIMIT,
};
use crate::keyboard::{KeyState, KeyStateV, PressType};
use crate::layout::{
    active_has, clone_u32s, layout_wf, spec_apply_transition, spec_find_index, spec_get_button,
    views_get, ActiveButtons, ButtonPosition, ButtonPositionV, Layout, LayoutStateV, LayoutV,
    UIBackend, UNIT_LIMIT,
};
use crate::submission::{
    spec_modifier_active, spec_with_modifier, Command, CommandV, ModifierState, SubmitData,
    SubmitDataV, Timestamp,
};

verus! {

/// The commands a press at `pos` sends to the sink: the button's text,
/// keycodes or erase demand, or nothing for view-switching buttons and
/// unknown positions.
pub open spec fn spec_press_cmds(
    shape: crate::layout::LayoutDataV,
    pos: ButtonPositionV,
    time: Timestamp,
) -> Seq<CommandV> {
    match spec_get_button(shape, pos) {
        Some(b) => match b.action {
            ActionV::Submit { text, .. } => match text {
                Some(t) => seq![
                    CommandV::Press {
                        key: pos,
                        data: SubmitDataV::Text(t),
                        keycodes: b.keycodes,
                        time,
                    },
                ],
                None => seq![
                    CommandV::Press {
                        key: pos,
                        data: SubmitDataV::Keycodes,
                        keycodes: b.keycodes,
                        time,
                    },
                ],
            },
            ActionV::Erase => seq![
                CommandV::Press { key: pos, data: SubmitDataV::Erase, keycodes: b.keycodes, time },
            ],
            _ => Seq::empty(),
        },
        None => Seq::empty(),
    }
}

/// The state after a press at `pos`: the position joins the pressed
/// list, unless it is already there (the press is still submitted — the
/// sink sees a repeated press, preserving the device's observable
/// behaviour) or it does not exist.
pub open spec fn spec_press_state(l: LayoutV, pos: ButtonPositionV) -> LayoutStateV {
    match spec_get_button(l.shape, pos) {
        Some(b) => {
            if active_has(l.state.active, pos) {
                l.state
            } else {
                LayoutStateV {
                    active: l.state.active.push(
                        (
                            pos,
                            KeyStateV {
                                pressed: PressType::Pressed,
                                keycodes: b.keycodes,
                                action: b.action,
                            },
                        ),
                    ),
                    ..l.state
                }
            }
        },
        None => l.state,
    }
}

/// Sends the press messages for the button and records it as pressed.
pub fn handle_press_key(layout: &mut Layout, time: Timestamp, button_pos: &ButtonPosition) -> (cmds:
    Vec<Command>)
    requires
        layout_wf(old(layout)@),
    ensures
        final(layout).shape == old(layout).shape,
        final(layout)@.state == spec_press_state(old(layout)@, button_pos@),
        layout_wf(final(layout)@),
        cmds@.map_values(|c: Command| c@) == spec_press_cmds(
            old(layout)@.shape,
            button_pos@,
            time,
        ),
{
    let mut cmds: Vec<Command> = Vec::new();
    let (keycodes, action) = match layout.shape.get_button(button_pos) {
        Some(button) => (clone_u32s(&button.keycodes), button.action.clone()),
        None => {
            proof {
                assert(cmds@.map_values(|c: Command| c@) =~= spec_press_cmds(
                    layout@.shape,
                    button_pos@,
                    time,
                ));
            }
            return cmds;
        },
    };
    match &action {
        Action::Submit { text: Some(text), .. } => {
            cmds.push(
                Command::Press {
                    key: button_pos.clone(),
                    data: SubmitData::Text(text.clone()),
                    keycodes: clone_u32s(&keycodes),
                    time,
                },
            );
        },
        Action::Submit { text: None, .. } => {
            cmds.push(
                Command::Press {
                    key: button_pos.clone(),
                    data: SubmitData::Keycodes,
                    keycodes: clone_u32s(&keycodes),
                    time,
                },
            );
        },
        Action::Erase => {
            cmds.push(
                Command::Press {
                    key: button_pos.clone(),
                    data: SubmitData::Erase,
                    keycodes: clone_u32s(&keycodes),
                    time,
                },
            );
        },
        _ => {},
    }
    proof {
        assert(cmds@.map_values(|c: Command| c@) =~= spec_press_cmds(
            layout@.shape,
            button_pos@,
            time,
        ));
    }
    match layout.state.active_buttons.find(button_pos) {
        Some(_) => {
            // Already pressed: the repeated press was submitted above,
            // but the state keeps a single entry.
        },
        None => {
            let ghost pre_active = layout@.state.active;
            layout.state.active_buttons.0.push(
                (
                    button_pos.clone(),
                    KeyState { pressed: PressType::Pressed, keycodes, action },
                ),
            );
            proof {
                assert(layout@.state.active =~= pre_active.push(
                    (
                        button_pos@,
                        KeyStateV {
                            pressed: PressType::Pressed,
                            keycodes: spec_get_button(
                                layout@.shape,
                                button_pos@,
                            ).unwrap().keycodes,
                            action: spec_get_button(layout@.shape, button_pos@).unwrap().action,
                        },
                    ),
                ));
            }
        },
    }
    cmds
}

/// The commands a release at `pos` sends: the sink release for
/// submitting buttons, the modifier change for modifier buttons (locking
/// it when it was unlocked and vice versa), or the demand to present the
/// layout switcher, placed over the button's widget-space bounds — the
/// latter only when a UI transformation and the switcher are available.
pub open spec fn spec_release_cmds(
    l: LayoutV,
    mods: ModifierState,
    ui: Option<TransV>,
    manager_present: bool,
    time: Timestamp,
    pos: ButtonPositionV,
) -> Seq<CommandV> {
    match spec_get_button(l.shape, pos) {
        Some(b) => match b.action {
            ActionV::Submit { .. } | ActionV::Erase => seq![
                CommandV::Release { key: pos, time },
            ],
            ActionV::ApplyModifier(m) => {
                if !spec_modifier_active(mods, m) {
                    seq![CommandV::AddModifier { key: pos, modifier: m, time }]
                } else {
                    seq![CommandV::DropModifier { key: pos, time }]
                }
            },
            ActionV::ShowPreferences => match ui {
                Some(t) => {
                    if manager_present {
                        let place = views_get(l.shape.views, pos.view).1.rows[pos.row];
                        let x = place.0.x + views_get(
                            l.shape.views,
                            pos.view,
                        ).1.rows[pos.row].1.buttons[pos.position_in_row].0;
                        let y = place.0.y;
                        seq![
                            CommandV::ShowPreferences {
                                x: spec_reverse(fint(x), t.origin_x, t.scale_x),
                                y: spec_reverse(fint(y as int), t.origin_y, t.scale_y),
                                width: fmul(fint(b.size.width as int), t.scale_x),
                                height: fmul(fint(b.size.height as int), t.scale_y),
                            },
                        ]
                    } else {
                        Seq::empty()
                    }
                },
                None => Seq::empty(),
            },
            _ => Seq::empty(),
        },
        None => Seq::empty(),
    }
}

/// The modifier record after a release at `pos`: a modifier button flips
/// its modifier; everything else changes nothing.
pub open spec fn spec_release_mods(
    l: LayoutV,
    mods: ModifierState,
    pos: ButtonPositionV,
) -> ModifierState {
    match spec_get_button(l.shape, pos) {
        Some(b) => match b.action {
            ActionV::ApplyModifier(m) => spec_with_modifier(
                mods,
                m,
                !spec_modifier_active(mods, m),
            ),
            _ => mods,
        },
        None => mods,
    }
}

/// The pressed list without `pos` (unchanged when `pos` is not in it).
pub open spec fn active_remove(
    a: Seq<(ButtonPositionV, KeyStateV)>,
    pos: ButtonPositionV,
) -> Seq<(ButtonPositionV, KeyStateV)> {
    if active_has(a, pos) {
        a.remove(choose|i: int| 0 <= i < a.len() && (#[trigger] a[i]).0 == pos)
    } else {
        a
    }
}

/// The state after a release at `pos`: the button's view transition is
/// carried out and the position leaves the pressed list.
pub open spec fn spec_release_state(l: LayoutV, pos: ButtonPositionV) -> LayoutStateV {
    match spec_get_button(l.shape, pos) {
        Some(b) => {
            let mid = spec_apply_transition(l, b.action);
            LayoutStateV { active: active_remove(mid.active, pos), ..mid }
        },
        None => l.state,
    }
}

/// Sends the release events for the button, carries out its view
/// transition, and removes it from the pressed list.
pub fn handle_release_key(
    layout: &mut Layout,
    mods: &mut ModifierState,
    ui: Option<&UIBackend>,
    manager_present: bool,
    time: Timestamp,
    button_pos: &ButtonPosition,
) -> (cmds: Vec<Command>)
    requires
        layout_wf(old(layout)@),
        match ui {
            Some(u) => twf(u.widget_to_layout@),
            None => true,
        },
    ensures
        final(layout).shape == old(layout).shape,
        final(layout)@.state == spec_release_state(old(layout)@, button_pos@),
        *final(mods) == spec_release_mods(old(layout)@, *old(mods), button_pos@),
        layout_wf(final(layout)@),
        cmds@.map_values(|c: Command| c@) == spec_release_cmds(
            old(layout)@,
            *old(mods),
            match ui {
                Some(u) => Some(u.widget_to_layout@),
                None => None,
            },
            manager_present,
            time,
            button_pos@,
        ),
{
    let ghost pre = layout@;
    let mut cmds: Vec<Command> = Vec::new();
    let action = match layout.shape.get_button(button_pos) {
        Some(button) => button.action.clone(),
        None => {
            proof {
                assert(cmds@.map_values(|c: Command| c@) =~= Seq::<CommandV>::empty());
            }
            return cmds;
        },
    };
    match &action {
        Action::Submit { .. } | Action::Erase => {
            cmds.push(Command::Release { key: button_pos.clone(), time });
        },
        Action::ApplyModifier(modifier) => {
            let gets_locked = !mods.is_active(*modifier);
            if gets_locked {
                cmds.push(
                    Command::AddModifier {
                        key: button_pos.clone(),
                        modifier: *modifier,
                        time,
                    },
                );
                mods.set_active(*modifier, true);
            } else {
                cmds.push(Command::DropModifier { key: button_pos.clone(), time });
                mods.set_active(*modifier, false);
            }
        },
        Action::ShowPreferences => {
            match ui {
                Some(ui) => {
                    if manager_present {
                        match layout.shape.find_button_place(button_pos) {
                            Some((position, button)) => {
                                proof {
                                    let v = views_get(pre.shape.views, button_pos@.view).1;
                                    let wi = choose|k: int|
                                        0 <= k < pre.shape.views.len() && (
                                        #[trigger] pre.shape.views[k]).0 == button_pos@.view;
                                    assert(pre.shape.views[wi].1.1 == v);
                                    assert(crate::layout::view_wf(v));
                                    assert(0 <= v.rows[button_pos@.row].0.x <= COORD_LIMIT);
                                    assert(crate::layout::row_wf(v.rows[button_pos@.row].1));
                                    assert(0 <= v.rows[button_pos@.row].1.buttons[
                                        button_pos@.position_in_row].0 <= UNIT_LIMIT);
                                    assert(0 <= button.size.width <= UNIT_LIMIT);
                                    assert(0 <= button.size.height <= UNIT_LIMIT);
                                }
                                let bounds = Bounds {
                                    x: position.x,
                                    y: position.y,
                                    width: button.size.width,
                                    height: button.size.height,
                                };
                                let fb = ui.widget_to_layout.reverse_bounds(bounds);
                                cmds.push(Command::ShowPreferences { bounds: fb });
                            },
                            None => {
                                proof {
                                    assert(false);
                                }
                            },
                        }
                    }
                },
                None => {},
            }
        },
        _ => {},
    }
    proof {
        assert(cmds@.map_values(|c: Command| c@) =~= spec_release_cmds(
            pre,
            *old(mods),
            match ui {
                Some(u) => Some(u.widget_to_layout@),
                None => None,
            },
            manager_present,
            time,
            button_pos@,
        ));
    }
    layout.apply_view_transition(&action);
    let ghost mid = layout@;
    match layout.state.active_buttons.find(button_pos) {
        Some(i) => {
            layout.state.active_buttons.0.remove(i);
            proof {
                let wi = choose|k: int|
                    0 <= k < mid.state.active.len() && (#[trigger] mid.state.active[k]).0
                        == button_pos@;
                assert(mid.state.active[i as int].0 == button_pos@);
                if wi != i {
                    assert(false);
                }
                assert(layout@.state.active =~= mid.state.active.remove(i as int));
                mid.state.active.remove_ensures(i as int);
                let outs = layout@.state.active;
                assert forall|a: int, b: int|
                    0 <= a < b < outs.len() implies (#[trigger] outs[a]).0 != (
                #[trigger] outs[b]).0 by {
                    let ma = if a < i as int {
                        a
                    } else {
                        a + 1
                    };
                    let mb = if b < i as int {
                        b
                    } else {
                        b + 1
                    };
                    assert(outs[a] == mid.state.active[ma]);
                    assert(outs[b] == mid.state.active[mb]);
                }
                assert forall|j: int| 0 <= j < outs.len() implies (
                #[trigger] outs[j]).1.pressed == PressType::Pressed && spec_get_button(
                    layout@.shape,
                    outs[j].0,
                ) is Some by {
                    let mj = if j < i as int {
                        j
                    } else {
                        j + 1
                    };
                    assert(outs[j] == mid.state.active[mj]);
                }
            }
        },
        None => {
            // Nothing to remove: the button was not in the pressed list.
        },
    }
    cmds
}

} // verus!

verus! {

/// Everything one release changes, bundled: the new layout, the new
/// modifier record, and the emitted commands.
pub open spec fn spec_release_one(
    l: LayoutV,
    mods: ModifierState,
    ui: Option<TransV>,
    manager_present: bool,
    time: Timestamp,
    pos: ButtonPositionV,
) -> (LayoutV, ModifierState, Seq<CommandV>) {
    (
        LayoutV { state: spec_release_state(l, pos), shape: l.shape },
        spec_release_mods(l, mods, pos),
        spec_release_cmds(l, mods, ui, manager_present, time, pos),
    )
}

/// Releasing a list of positions in order, skipping `skip_pos` when
/// given: each release acts on the state the previous ones left behind,
/// and the commands are concatenated in order.
pub open spec fn spec_release_list(
    l: LayoutV,
    mods: ModifierState,
    ui: Option<TransV>,
    manager_present: bool,
    time: Timestamp,
    list: Seq<ButtonPositionV>,
    skip_pos: Option<ButtonPositionV>,
) -> (LayoutV, ModifierState, Seq<CommandV>)
    decreases list.len(),
{
    if list.len() == 0 {
        (l, mods, Seq::empty())
    } else if skip_pos matches Some(s) && list[0] == s {
        spec_release_list(l, mods, ui, manager_present, time, list.drop_first(), skip_pos)
    } else {
        let one = spec_release_one(l, mods, ui, manager_present, time, list[0]);
        let rest = spec_release_list(
            one.0,
            one.1,
            ui,
            manager_present,
            time,
            list.drop_first(),
            skip_pos,
        );
        (rest.0, rest.1, one.2 + rest.2)
    }
}

/// The positions of the currently pressed buttons, in insertion order.
pub open spec fn pressed_positions(a: Seq<(ButtonPositionV, KeyStateV)>) -> Seq<ButtonPositionV> {
    a.map_values(|e: (ButtonPositionV, KeyStateV)| e.0)
}

/// A copy of the pressed positions, for iterating while the list is
/// mutated.
fn collect_pressed(a: &ActiveButtons) -> (r: Vec<ButtonPosition>)
    ensures
        r@.map_values(|p: ButtonPosition| p@) == pressed_positions(a@),
{
    let mut r: Vec<ButtonPosition> = Vec::new();
    let mut i: usize = 0;
    while i < a.0.len()
        invariant
            i <= a.0@.len(),
            r@.len() == i,
            forall|j: int| 0 <= j < i ==> (#[trigger] r@[j])@ == a.0@[j].0@,
        decreases a.0@.len() - i,
    {
        r.push(a.0[i].0.clone());
        i = i + 1;
    }
    proof {
        assert(r@.map_values(|p: ButtonPosition| p@) =~= pressed_positions(a@));
    }
    r
}

/// Releases the given positions in order, skipping `skip_pos` when
/// given.
fn release_list(
    layout: &mut Layout,
    mods: &mut ModifierState,
    ui: Option<&UIBackend>,
    manager_present: bool,
    time: Timestamp,
    list: &Vec<ButtonPosition>,
    skip_pos: Option<&ButtonPosition>,
) -> (cmds: Vec<Command>)
    requires
        layout_wf(old(layout)@),
        match ui {
            Some(u) => twf(u.widget_to_layout@),
            None => true,
        },
    ensures
        layout_wf(final(layout)@),
        ({
            let total = spec_release_list(
                old(layout)@,
                *old(mods),
                match ui {
                    Some(u) => Some(u.widget_to_layout@),
                    None => None,
                },
                manager_present,
                time,
                list@.map_values(|p: ButtonPosition| p@),
                match skip_pos {
                    Some(s) => Some(s@),
                    None => None,
                },
            );
            &&& final(layout)@ == total.0
            &&& *final(mods) == total.1
            &&& cmds@.map_values(|c: Command| c@) == total.2
        }),
{
    let ghost uiv: Option<TransV> = match ui {
        Some(u) => Some(u.widget_to_layout@),
        None => None,
    };
    let ghost skipv: Option<ButtonPositionV> = match skip_pos {
        Some(s) => Some(s@),
        None => None,
    };
    let ghost positions = list@.map_values(|p: ButtonPosition| p@);
    let ghost total = spec_release_list(
        old(layout)@,
        *old(mods),
        uiv,
        manager_present,
        time,
        positions,
        skipv,
    );
    let mut cmds: Vec<Command> = Vec::new();
    proof {
        assert(positions.skip(0) =~= positions);
        assert(cmds@.map_values(|c: Command| c@) =~= Seq::<CommandV>::empty());
        assert(Seq::<CommandV>::empty() + total.2 =~= total.2);
    }
    let mut i: usize = 0;
    while i < list.len()
        invariant
            i <= list@.len(),
            positions == list@.map_values(|p: ButtonPosition| p@),
            layout_wf(layout@),
            match ui {
                Some(u) => twf(u.widget_to_layout@),
                None => true,
            },
            uiv == match ui {
                Some(u) => Some(u.widget_to_layout@),
                None => None::<TransV>,
            },
            skipv == match skip_pos {
                Some(s) => Some(s@),
                None => None::<ButtonPositionV>,
            },
            ({
                let rem = spec_release_list(
                    layout@,
                    *mods,
                    uiv,
                    manager_present,
                    time,
                    positions.skip(i as int),
                    skipv,
                );
                &&& rem.0 == total.0
                &&& rem.1 == total.1
                &&& cmds@.map_values(|c: Command| c@) + rem.2 == total.2
            }),
        decreases list@.len() - i,
    {
        let ghost pre = layout@;
        let ghost pre_mods = *mods;
        let ghost pre_cmds = cmds@;
        proof {
            assert(positions.skip(i as int).drop_first() =~= positions.skip(i + 1));
            assert(positions.skip(i as int)[0] == positions[i as int]);
            assert(positions[i as int] == list@[i as int]@);
        }
        let skip_this = match skip_pos {
            Some(s) => list[i].same_as(s),
            None => false,
        };
        if !skip_this {
            let mut step = handle_release_key(layout, mods, ui, manager_present, time, &list[i]);
            proof {
                let one = spec_release_one(
                    pre,
                    pre_mods,
                    uiv,
                    manager_present,
                    time,
                    positions[i as int],
                );
                assert(layout@ == one.0);
                assert(*mods == one.1);
                assert(step@.map_values(|c: Command| c@) == one.2);
            }
            let ghost step_views = step@.map_values(|c: Command| c@);
            cmds.append(&mut step);
            proof {
                assert(cmds@.map_values(|c: Command| c@) =~= pre_cmds.map_values(
                    |c: Command| c@,
                ) + step_views);
            }
        }
        i = i + 1;
    }
    proof {
        assert(positions.skip(list@.len() as int) =~= Seq::<ButtonPositionV>::empty());
        assert(cmds@.map_values(|c: Command| c@) + Seq::<CommandV>::empty() =~= cmds@.map_values(
            |c: Command| c@,
        ));
    }
    cmds
}

/// Releases every pressed button, as when the pointer leaves the
/// keyboard: each release carries out its view transition and is
/// reported to the sink; the popover may be requested when a release
/// lands on the preferences button.
pub fn release_all(
    layout: &mut Layout,
    mods: &mut ModifierState,
    ui: Option<&UIBackend>,
    manager_present: bool,
    time: Timestamp,
) -> (cmds: Vec<Command>)
    requires
        layout_wf(old(layout)@),
        match ui {
            Some(u) => twf(u.widget_to_layout@),
            None => true,
        },
    ensures
        layout_wf(final(layout)@),
        ({
            let total = spec_release_list(
                old(layout)@,
                *old(mods),
                match ui {
                    Some(u) => Some(u.widget_to_layout@),
                    None => None,
                },
                manager_present,
                time,
                pressed_positions(old(layout)@.state.active),
                None,
            );
            &&& final(layout)@ == total.0
            &&& *final(mods) == total.1
            &&& cmds@.map_values(|c: Command| c@) == total.2
        }),
{
    // The list must be copied, because it is mutated in the loop.
    let pressed = collect_pressed(&layout.state.active_buttons);
    release_list(layout, mods, ui, manager_present, time, &pressed, None)
}

/// Releases every pressed button without touching the UI: no popover,
/// no widget-space geometry.
pub fn release_all_only(layout: &mut Layout, mods: &mut ModifierState, time: Timestamp) -> (cmds:
    Vec<Command>)
    requires
        layout_wf(old(layout)@),
    ensures
        layout_wf(final(layout)@),
        ({
            let total = spec_release_list(
                old(layout)@,
                *old(mods),
                None,
                false,
                time,
                pressed_positions(old(layout)@.state.active),
                None,
            );
            &&& final(layout)@ == total.0
            &&& *final(mods) == total.1
            &&& cmds@.map_values(|c: Command| c@) == total.2
        }),
{
    let pressed = collect_pressed(&layout.state.active_buttons);
    release_list(layout, mods, None, false, time, &pressed, None)
}

} // verus!

verus! {

/// The widget-space point `(x, y)` carried into layout space.
pub open spec fn spec_widget_point(t: TransV, x: int, y: int) -> PointV {
    PointV {
        x: spec_forward(fint(x), t.origin_x, t.scale_x),
        y: spec_forward(fint(y), t.origin_y, t.scale_y),
    }
}

/// What a press at widget point `(x, y)` does: the point maps into
/// layout space and resolves to a button of the current view; that
/// button is pressed.  A point outside the view changes nothing.
pub open spec fn spec_depress(
    l: LayoutV,
    t: TransV,
    time: Timestamp,
    x: int,
    y: int,
) -> (LayoutStateV, Seq<CommandV>) {
    match spec_find_index(l, spec_widget_point(t, x, y)) {
        Some(idx) => {
            let pos = ButtonPositionV {
                view: l.state.current_view,
                row: idx.0,
                position_in_row: idx.1,
            };
            (spec_press_state(l, pos), spec_press_cmds(l.shape, pos, time))
        },
        None => (l.state, Seq::empty()),
    }
}

/// Presses the button under the widget-space point, if any.
pub fn depress(
    layout: &mut Layout,
    x_widget: i64,
    y_widget: i64,
    widget_to_layout: &Transformation,
    time: Timestamp,
) -> (cmds: Vec<Command>)
    requires
        layout_wf(old(layout)@),
        twf(widget_to_layout@),
        -COORD_LIMIT <= x_widget <= COORD_LIMIT,
        -COORD_LIMIT <= y_widget <= COORD_LIMIT,
    ensures
        final(layout).shape == old(layout).shape,
        layout_wf(final(layout)@),
        ({
            let sd = spec_depress(
                old(layout)@,
                widget_to_layout@,
                time,
                x_widget as int,
                y_widget as int,
            );
            &&& final(layout)@.state == sd.0
            &&& cmds@.map_values(|c: Command| c@) == sd.1
        }),
{
    let point = widget_to_layout.forward(Point::from_ints(x_widget, y_widget));
    match layout.find_index_by_position(&point) {
        Some((row, position_in_row)) => {
            let button = ButtonPosition {
                view: layout.state.current_view.clone(),
                row,
                position_in_row,
            };
            handle_press_key(layout, time, &button)
        },
        None => {
            let cmds: Vec<Command> = Vec::new();
            proof {
                assert(cmds@.map_values(|c: Command| c@) =~= Seq::<CommandV>::empty());
            }
            cmds
        },
    }
}

/// What a drag to widget point `(x, y)` does.  Let `P` be the pressed
/// set and `H` the button under the point (possibly none).  Every
/// pressed button other than `H` is released, with all release side
/// effects; if `H` exists and was not pressed, it is pressed — in the
/// view that is current after the releases.  This makes drags into
/// sliders over keys.
pub open spec fn spec_drag(
    l: LayoutV,
    mods: ModifierState,
    t: TransV,
    manager_present: bool,
    time: Timestamp,
    x: int,
    y: int,
) -> (LayoutV, ModifierState, Seq<CommandV>) {
    let positions = pressed_positions(l.state.active);
    match spec_find_index(l, spec_widget_point(t, x, y)) {
        Some(idx) => {
            let current = ButtonPositionV {
                view: l.state.current_view,
                row: idx.0,
                position_in_row: idx.1,
            };
            let rel = spec_release_list(
                l,
                mods,
                Some(t),
                manager_present,
                time,
                positions,
                Some(current),
            );
            if positions.contains(current) {
                rel
            } else {
                let press_pos = ButtonPositionV {
                    view: rel.0.state.current_view,
                    row: idx.0,
                    position_in_row: idx.1,
                };
                (
                    LayoutV { state: spec_press_state(rel.0, press_pos), shape: rel.0.shape },
                    rel.1,
                    rel.2 + spec_press_cmds(rel.0.shape, press_pos, time),
                )
            }
        },
        None => spec_release_list(l, mods, Some(t), manager_present, time, positions, None),
    }
}

/// Handles a pointer drag to the given widget point.
pub fn drag(
    layout: &mut Layout,
    mods: &mut ModifierState,
    x_widget: i64,
    y_widget: i64,
    ui: &UIBackend,
    manager_present: bool,
    time: Timestamp,
) -> (cmds: Vec<Command>)
    requires
        layout_wf(old(layout)@),
        twf(ui.widget_to_layout@),
        -COORD_LIMIT <= x_widget <= COORD_LIMIT,
        -COORD_LIMIT <= y_widget <= COORD_LIMIT,
    ensures
        layout_wf(final(layout)@),
        ({
            let sd = spec_drag(
                old(layout)@,
                *old(mods),
                ui.widget_to_layout@,
                manager_present,
                time,
                x_widget as int,
                y_widget as int,
            );
            &&& final(layout)@ == sd.0
            &&& *final(mods) == sd.1
            &&& cmds@.map_values(|c: Command| c@) == sd.2
        }),
{
    let ghost pre = layout@;
    let point = ui.widget_to_layout.forward(Point::from_ints(x_widget, y_widget));
    let pressed = collect_pressed(&layout.state.active_buttons);
    match layout.find_index_by_position(&point) {
        Some((row, position_in_row)) => {
            let current = ButtonPosition {
                view: layout.state.current_view.clone(),
                row,
                position_in_row,
            };
            let found = match layout.state.active_buttons.find(&current) {
                Some(_) => true,
                None => false,
            };
            proof {
                let positions = pressed_positions(pre.state.active);
                if found {
                    let wi = choose|k: int|
                        0 <= k < pre.state.active.len() && (#[trigger] pre.state.active[k]).0
                            == current@;
                    assert(positions[wi] == current@);
                    assert(positions.contains(current@));
                } else {
                    if positions.contains(current@) {
                        let wi = choose|k: int|
                            0 <= k < positions.len() && positions[k] == current@;
                        assert(pre.state.active[wi].0 == current@);
                        assert(false);
                    }
                }
            }
            let mut cmds = release_list(
                layout,
                mods,
                Some(ui),
                manager_present,
                time,
                &pressed,
                Some(&current),
            );
            if !found {
                let press_pos = ButtonPosition {
                    view: layout.state.current_view.clone(),
                    row,
                    position_in_row,
                };
                let ghost before_press = cmds@.map_values(|c: Command| c@);
                let mut more = handle_press_key(layout, time, &press_pos);
                let ghost more_views = more@.map_values(|c: Command| c@);
                cmds.append(&mut more);
                proof {
                    assert(cmds@.map_values(|c: Command| c@) =~= before_press + more_views);
                }
            }
            cmds
        },
        None => release_list(layout, mods, Some(ui), manager_present, time, &pressed, None),
    }
}

} // verus!
