//! Layout-related data.
//!
//! A view contains rows and each row contains buttons.  They carry the
//! data relevant to their positioning, and the button also describes its
//! appearance and function.  The layout is determined bottom-up: button
//! sizes give row sizes, rows are centred within their view, and the
//! panel-level transformation places the whole view inside the allocated
//! widget area.

use vstd::prelude::*;

use crate::action::{spec_is_locked, Action, ActionV};
use crate::geometry::{
    fint, fle, flt, fsub, fwf, lemma_mul_bounds, spec_contains, twf, Bounds, FracV, Fraction,
    Point, PointV, TransV, Transformation, COORD_LIMIT, FRAC_DEN_LIMIT,
};
use crate::imservice::ContentPurpose;
use crate::keyboard::{KeyState, KeyStateV, PressType};

pub mod seat;

verus! {

/// Magnitude bound for authored layout lengths (offsets, sizes,
/// margins).  Keeping authored values this small keeps every computed
/// size within [`COORD_LIMIT`].
pub const UNIT_LIMIT: i64 = 262144;

/// Distances between neighbouring rows and buttons, in layout units.
#[derive(Clone, Copy, Debug, PartialEq, Eq, Structural)]
pub struct Spacing {
    pub row: i64,
    pub button: i64,
}

/// A size in layout units.
#[derive(Clone, Copy, Debug, PartialEq, Eq, Structural)]
pub struct Size {
    pub width: i64,
    pub height: i64,
}

/// An integer position in layout units.
#[derive(Clone, Copy, Debug, PartialEq, Eq, Structural)]
pub struct Position {
    pub x: i64,
    pub y: i64,
}

/// What is drawn on a button.
#[derive(Debug)]
pub enum Label {
    /// Text used to display the symbol.
    Text(String),
    /// Icon name used to render the symbol.
    IconName(String),
}

/// Mathematical image of `Label`.
pub ghost enum LabelV {
    Text(Seq<char>),
    IconName(Seq<char>),
}

impl View for Label {
    type V = LabelV;

    open spec fn view(&self) -> LabelV {
        match self {
            Label::Text(t) => LabelV::Text(t@),
            Label::IconName(n) => LabelV::IconName(n@),
        }
    }
}

/// The definition of an interactive button.
#[derive(Debug)]
pub struct Button {
    /// ID string, e.g. for styling.
    pub name: String,
    /// Label to display to the user.
    pub label: Label,
    pub size: Size,
    /// The name of the visual class applied.
    pub outline_name: String,
    /// A cache of raw keycodes derived from `Action::Submit` given a keymap.
    pub keycodes: Vec<u32>,
    /// Static description of what the key does when pressed or released.
    pub action: Action,
}

/// Mathematical image of `Button`.
pub ghost struct ButtonV {
    pub name: Seq<char>,
    pub label: LabelV,
    pub size: Size,
    pub outline_name: Seq<char>,
    pub keycodes: Seq<u32>,
    pub action: ActionV,
}

impl View for Button {
    type V = ButtonV;

    open spec fn view(&self) -> ButtonV {
        ButtonV {
            name: self.name@,
            label: self.label@,
            size: self.size,
            outline_name: self.outline_name@,
            keycodes: self.keycodes@,
            action: self.action@,
        }
    }
}

impl Clone for Label {
    fn clone(&self) -> (r: Self)
        ensures
            r@ == self@,
    {
        match self {
            Label::Text(t) => Label::Text(t.clone()),
            Label::IconName(n) => Label::IconName(n.clone()),
        }
    }
}

impl Clone for Button {
    fn clone(&self) -> (r: Self)
        ensures
            r@ == self@,
    {
        Button {
            name: self.name.clone(),
            label: self.label.clone(),
            size: self.size,
            outline_name: self.outline_name.clone(),
            keycodes: clone_u32s(&self.keycodes),
            action: self.action.clone(),
        }
    }
}

impl Clone for Row {
    fn clone(&self) -> (r: Self)
        ensures
            r@ == self@,
    {
        let mut buttons: Vec<(i64, Button)> = Vec::new();
        let mut i: usize = 0;
        while i < self.buttons.len()
            invariant
                i <= self.buttons@.len(),
                buttons@.len() == i,
                forall|j: int|
                    0 <= j < i ==> (#[trigger] buttons@[j]).0 == self.buttons@[j].0
                        && buttons@[j].1@ == self.buttons@[j].1@,
            decreases self.buttons@.len() - i,
        {
            buttons.push((self.buttons[i].0, self.buttons[i].1.clone()));
            i = i + 1;
        }
        let r = Row { buttons, size: self.size };
        proof {
            assert(r@.buttons =~= self@.buttons);
        }
        r
    }
}

impl Clone for LatchedState {
    fn clone(&self) -> (r: Self)
        ensures
            r@ == self@,
    {
        match self {
            LatchedState::FromView(v) => LatchedState::FromView(v.clone()),
            LatchedState::Not => LatchedState::Not,
        }
    }
}

impl Button {
    /// The button's own bounding box, anchored at its origin.
    pub fn get_bounds(&self) -> (r: Bounds)
        ensures
            r == (Bounds { x: 0, y: 0, width: self.size.width, height: self.size.height }),
    {
        Bounds { x: 0, y: 0, width: self.size.width, height: self.size.height }
    }
}

/// The representation of a row of buttons.
#[derive(Debug)]
pub struct Row {
    /// Buttons together with their offset from the left, relative to the
    /// row; the offsets never decrease.
    pub buttons: Vec<(i64, Button)>,
    /// Total size of the row.
    pub size: Size,
}

/// Mathematical image of `Row`.
pub ghost struct RowV {
    pub buttons: Seq<(i64, ButtonV)>,
    pub size: Size,
}

impl View for Row {
    type V = RowV;

    open spec fn view(&self) -> RowV {
        RowV {
            buttons: self.buttons@.map_values(|p: (i64, Button)| (p.0, p.1@)),
            size: self.size,
        }
    }
}

/// The x offsets of a row's buttons.
pub open spec fn row_offsets(r: RowV) -> Seq<i64> {
    r.buttons.map_values(|p: (i64, ButtonV)| p.0)
}

/// Authored button data within bounds and sorted by offset.
pub open spec fn buttons_wf(buttons: Seq<(i64, ButtonV)>) -> bool {
    &&& forall|i: int|
        0 <= i < buttons.len() ==> {
            let b = #[trigger] buttons[i];
            &&& 0 <= b.0 <= UNIT_LIMIT
            &&& 0 <= b.1.size.width <= UNIT_LIMIT
            &&& 0 <= b.1.size.height <= UNIT_LIMIT
        }
    &&& forall|i: int, j: int|
        0 <= i < j < buttons.len() ==> (#[trigger] buttons[i]).0 <= (#[trigger] buttons[j]).0
}

/// A well-formed row: authored data in bounds, and the stored size is
/// the derived one.
pub open spec fn row_wf(r: RowV) -> bool {
    &&& buttons_wf(r.buttons)
    &&& r.size == spec_row_size(r.buttons)
}

/// The width is the right edge of the last button; the height is the
/// tallest button's height.
pub open spec fn spec_row_size(buttons: Seq<(i64, ButtonV)>) -> Size {
    Size {
        width: if buttons.len() == 0 {
            0
        } else {
            (buttons.last().0 + buttons.last().1.size.width) as i64
        },
        height: spec_max_height(buttons),
    }
}

/// The tallest button's height.
pub open spec fn spec_max_height(buttons: Seq<(i64, ButtonV)>) -> i64
    decreases buttons.len(),
{
    if buttons.len() == 0 {
        0
    } else {
        let rest = spec_max_height(buttons.drop_last());
        if buttons.last().1.size.height > rest {
            buttons.last().1.size.height
        } else {
            rest
        }
    }
}

impl Row {
    /// Builds a row from buttons sorted by ascending offset.
    pub fn new(buttons: Vec<(i64, Button)>) -> (r: Row)
        requires
            buttons_wf(buttons@.map_values(|p: (i64, Button)| (p.0, p.1@))),
        ensures
            r@.buttons == buttons@.map_values(|p: (i64, Button)| (p.0, p.1@)),
            row_wf(r@),
    {
        let ghost bv = buttons@.map_values(|p: (i64, Button)| (p.0, p.1@));
        let width: i64 = if buttons.len() == 0 {
            0
        } else {
            proof {
                assert(bv[bv.len() - 1] == (buttons@[bv.len() - 1].0, buttons@[bv.len()
                    - 1].1@));
                assert(0 <= bv[bv.len() - 1].0 <= UNIT_LIMIT);
            }
            let last = &buttons[buttons.len() - 1];
            last.0 + last.1.size.width
        };
        let mut height: i64 = 0;
        let mut i: usize = 0;
        while i < buttons.len()
            invariant
                i <= buttons@.len(),
                bv == buttons@.map_values(|p: (i64, Button)| (p.0, p.1@)),
                buttons_wf(bv),
                height == spec_max_height(bv.take(i as int)),
                0 <= height <= UNIT_LIMIT,
            decreases buttons@.len() - i,
        {
            proof {
                assert(bv.take(i + 1).drop_last() =~= bv.take(i as int));
                assert(bv.take(i + 1).last() == bv[i as int]);
            }
            if buttons[i].1.size.height > height {
                height = buttons[i].1.size.height;
            }
            i = i + 1;
        }
        proof {
            assert(bv.take(bv.len() as int) =~= bv);
            if bv.len() > 0 {
                assert(bv.last() == bv[bv.len() - 1]);
            }
        }
        Row { buttons, size: Size { width, height } }
    }

    pub fn get_size(&self) -> (r: Size)
        ensures
            r == self@.size,
    {
        self.size
    }

    pub fn get_buttons(&self) -> (r: &Vec<(i64, Button)>)
        ensures
            r@.map_values(|p: (i64, Button)| (p.0, p.1@)) == self@.buttons,
    {
        &self.buttons
    }

    /// Finds the button covering the given x, relative to the row's
    /// origin: the last button whose offset does not exceed `x`; a point
    /// left of every button still resolves to the first button.
    pub fn find_button_by_position(&self, x: &Fraction) -> (r: usize)
        requires
            row_wf(self@),
            self@.buttons.len() >= 1,
            fwf(x@),
            x@.den < FRAC_DEN_LIMIT,
        ensures
            r == spec_hit(row_offsets(self@), x@),
    {
        let offsets = collect_button_offsets(&self.buttons);
        hit_index(&offsets, x)
    }
}

/// The x offsets of the row's buttons, as a plain vector.
fn collect_button_offsets(buttons: &Vec<(i64, Button)>) -> (r: Vec<i64>)
    ensures
        r@ == buttons@.map_values(|p: (i64, Button)| (p.0, p.1@)).map_values(
            |p: (i64, ButtonV)| p.0,
        ),
{
    let mut r: Vec<i64> = Vec::new();
    let mut i: usize = 0;
    while i < buttons.len()
        invariant
            i <= buttons@.len(),
            r@.len() == i,
            forall|j: int| 0 <= j < i ==> r@[j] == (#[trigger] buttons@[j]).0,
        decreases buttons@.len() - i,
    {
        r.push(buttons[i].0);
        i = i + 1;
    }
    proof {
        assert(r@ =~= buttons@.map_values(|p: (i64, Button)| (p.0, p.1@)).map_values(
            |p: (i64, ButtonV)| p.0,
        ));
    }
    r
}

/// Offsets in non-decreasing order.
pub open spec fn offsets_sorted(offs: Seq<i64>) -> bool {
    forall|i: int, j: int| 0 <= i < j < offs.len() ==> #[trigger] offs[i] <= #[trigger] offs[j]
}

/// The index the one-dimensional hit test resolves to: the largest index
/// whose offset is at most `x`, or 0 when `x` lies before every offset.
pub open spec fn spec_hit(offs: Seq<i64>, x: FracV) -> int
    decreases offs.len(),
{
    if offs.len() <= 1 {
        0
    } else if fle(fint(offs.last() as int), x) {
        offs.len() - 1
    } else {
        spec_hit(offs.drop_last(), x)
    }
}

/// What [`spec_hit`] returns, characterised without recursion: any index
/// that is reachable (its offset is at most `x`, or it is 0) and maximal
/// (every later offset is beyond `x`) is the hit.
pub proof fn lemma_hit_characterisation(offs: Seq<i64>, x: FracV, i: int)
    requires
        0 <= i < offs.len(),
        i == 0 || fle(fint(offs[i] as int), x),
        forall|j: int| i < j < offs.len() ==> !fle(fint(#[trigger] offs[j] as int), x),
    ensures
        spec_hit(offs, x) == i,
    decreases offs.len(),
{
    if offs.len() <= 1 {
    } else if i == offs.len() - 1 {
        if i == 0 {
        } else {
            assert(fle(fint(offs.last() as int), x));
        }
    } else {
        assert(!fle(fint(offs.last() as int), x));
        assert(offs.drop_last()[i] == offs[i]);
        lemma_hit_characterisation(offs.drop_last(), x, i);
    }
}

/// Order is preserved when comparing against larger offsets: if `x` lies
/// strictly before offset `a`, it lies strictly before any offset `b ≥ a`.
pub proof fn lemma_flt_mono(x: FracV, a: i64, b: i64)
    requires
        fwf(x),
        flt(x, fint(a as int)),
        a <= b,
    ensures
        flt(x, fint(b as int)),
{
    assert(a * x.den <= b * x.den) by (nonlinear_arith)
        requires
            a <= b,
            x.den > 0,
    ;
}

/// Binary-search hit test (interval form): when the offsets are sorted
/// and `x` lies in the half-open interval `[offs[i], offs[i+1])` — or at
/// or after the last offset, for `i` the last index — the hit is exactly
/// `i`.
pub proof fn lemma_hit_test_interval(offs: Seq<i64>, x: FracV, i: int)
    requires
        fwf(x),
        offsets_sorted(offs),
        0 <= i < offs.len(),
        fle(fint(offs[i] as int), x),
        i + 1 < offs.len() ==> flt(x, fint(offs[i + 1] as int)),
    ensures
        spec_hit(offs, x) == i,
{
    assert forall|j: int| i < j < offs.len() implies !fle(fint(#[trigger] offs[j] as int), x) by {
        assert(offs[i + 1] <= offs[j]);
        lemma_flt_mono(x, offs[i + 1], offs[j]);
    }
    lemma_hit_characterisation(offs, x, i);
}

/// Binary-search hit test (before-first form): when the offsets are
/// sorted and `x` lies strictly before the first offset, the hit is the
/// first button.
pub proof fn lemma_hit_test_before_first(offs: Seq<i64>, x: FracV)
    requires
        fwf(x),
        offsets_sorted(offs),
        offs.len() >= 1,
        flt(x, fint(offs[0] as int)),
    ensures
        spec_hit(offs, x) == 0,
{
    assert forall|j: int| 0 < j < offs.len() implies !fle(fint(#[trigger] offs[j] as int), x) by {
        assert(offs[0] <= offs[j]);
        lemma_flt_mono(x, offs[0], offs[j]);
    }
    lemma_hit_characterisation(offs, x, 0);
}

/// Binary search for the hit index over sorted offsets.
fn hit_index(offs: &Vec<i64>, x: &Fraction) -> (r: usize)
    requires
        offs@.len() >= 1,
        offsets_sorted(offs@),
        forall|i: int| 0 <= i < offs@.len() ==> -COORD_LIMIT <= #[trigger] offs@[i] <= COORD_LIMIT,
        fwf(x@),
        x@.den < FRAC_DEN_LIMIT,
    ensures
        r == spec_hit(offs@, x@),
        r < offs@.len(),
{
    let mut lo: usize = 0;
    let mut hi: usize = offs.len();
    while lo + 1 < hi
        invariant
            0 <= lo < hi <= offs@.len(),
            lo == 0 || fle(fint(offs@[lo as int] as int), x@),
            forall|j: int| hi <= j < offs@.len() ==> !fle(fint(#[trigger] offs@[j] as int), x@),
            offsets_sorted(offs@),
            forall|i: int|
                0 <= i < offs@.len() ==> -COORD_LIMIT <= #[trigger] offs@[i] <= COORD_LIMIT,
            fwf(x@),
            x@.den < FRAC_DEN_LIMIT,
        decreases hi - lo,
    {
        let mid = lo + (hi - lo) / 2;
        if crate::geometry::int_le_frac(offs[mid], x) {
            lo = mid;
        } else {
            proof {
                assert forall|j: int| mid <= j < offs@.len() implies !fle(
                    fint(#[trigger] offs@[j] as int),
                    x@,
                ) by {
                    assert(offs@[mid as int] <= offs@[j]);
                    assert(flt(x@, fint(offs@[mid as int] as int)));
                    lemma_flt_mono(x@, offs@[mid as int], offs@[j]);
                }
            }
            hi = mid;
        }
    }
    proof {
        lemma_hit_characterisation(offs@, x@, lo as int);
    }
    lo
}

} // verus!

verus! {

/// The physical characteristic of a layout for the purpose of styling.
#[derive(Clone, Copy, Debug, PartialEq, Eq, Structural)]
pub enum ArrangementKind {
    Base,
    Wide,
}

/// One named symbol set of a layout: rows of buttons, centred
/// horizontally within the view.
#[derive(Debug)]
pub struct LayoutView {
    /// Rows together with their offsets from the top left; the x offset
    /// centres the row, the y offset is the authored one and never
    /// decreases from row to row.
    pub rows: Vec<(Position, Row)>,
    /// Total size of the view.
    pub size: Size,
}

/// Mathematical image of `LayoutView`.
pub ghost struct LayoutViewV {
    pub rows: Seq<(Position, RowV)>,
    pub size: Size,
}

impl View for LayoutView {
    type V = LayoutViewV;

    open spec fn view(&self) -> LayoutViewV {
        LayoutViewV {
            rows: self.rows@.map_values(|p: (Position, Row)| (p.0, p.1@)),
            size: self.size,
        }
    }
}

/// The y offsets of the view's rows.
pub open spec fn row_ys(v: LayoutViewV) -> Seq<i64> {
    v.rows.map_values(|p: (Position, RowV)| p.0.y)
}

/// The widest row's width.
pub open spec fn spec_max_row_width(rows: Seq<(i64, RowV)>) -> i64
    decreases rows.len(),
{
    if rows.len() == 0 {
        0
    } else {
        let rest = spec_max_row_width(rows.drop_last());
        if rows.last().1.size.width > rest {
            rows.last().1.size.width
        } else {
            rest
        }
    }
}

/// Authored rows within bounds: sorted y offsets, well-formed non-empty
/// rows.
pub open spec fn rows_wf(rows: Seq<(i64, RowV)>) -> bool {
    &&& forall|i: int|
        0 <= i < rows.len() ==> {
            let r = #[trigger] rows[i];
            &&& 0 <= r.0 <= UNIT_LIMIT
            &&& row_wf(r.1)
            &&& r.1.buttons.len() >= 1
        }
    &&& forall|i: int, j: int|
        0 <= i < j < rows.len() ==> (#[trigger] rows[i]).0 <= (#[trigger] rows[j]).0
}

/// A well-formed view: every row well-formed and non-empty, y offsets
/// sorted, each row centred within the view's width, and the stored size
/// derived from the rows.
pub open spec fn view_wf(v: LayoutViewV) -> bool {
    &&& forall|i: int|
        0 <= i < v.rows.len() ==> {
            let r = #[trigger] v.rows[i];
            &&& row_wf(r.1)
            &&& r.1.buttons.len() >= 1
            &&& 0 <= r.0.y <= UNIT_LIMIT
            &&& r.0.x == (v.size.width - r.1.size.width) / 2
            &&& r.1.size.width <= v.size.width
        }
    &&& forall|i: int, j: int|
        0 <= i < j < v.rows.len() ==> (#[trigger] v.rows[i]).0.y <= (#[trigger] v.rows[j]).0.y
    &&& 0 <= v.size.width <= COORD_LIMIT
    &&& 0 <= v.size.height <= COORD_LIMIT
    &&& v.rows.len() == 0 ==> v.size == (Size { width: 0, height: 0 })
}

/// The hit a point resolves to within a view: nothing outside the
/// view's bounding box; otherwise the row is selected by binary search
/// on y and the button by binary search on x relative to the row.
pub open spec fn spec_view_hit(v: LayoutViewV, p: PointV) -> Option<(int, int)> {
    if !spec_contains(Bounds { x: 0, y: 0, width: v.size.width, height: v.size.height }, p) {
        None
    } else {
        let ri = spec_hit(row_ys(v), p.y);
        let row = v.rows[ri];
        let local_x = fsub(p.x, fint(row.0.x as int));
        let bi = spec_hit(row_offsets(row.1), local_x);
        Some((ri, bi))
    }
}

impl LayoutView {
    /// Builds a view from rows sorted by ascending y offset, centring
    /// each row horizontally.
    pub fn new(rows: Vec<(i64, Row)>) -> (r: LayoutView)
        requires
            rows_wf(rows@.map_values(|p: (i64, Row)| (p.0, p.1@))),
        ensures
            view_wf(r@),
            r@.rows.len() == rows@.len(),
            forall|i: int|
                0 <= i < rows@.len() ==> {
                    let pre = rows@.map_values(|p: (i64, Row)| (p.0, p.1@))[i];
                    let post = #[trigger] r@.rows[i];
                    post.1 == pre.1 && post.0.y == pre.0
                },
            r@.size == spec_view_size(rows@.map_values(|p: (i64, Row)| (p.0, p.1@))),
    {
        let ghost rv = rows@.map_values(|p: (i64, Row)| (p.0, p.1@));
        // The widest row reaches furthest in both directions, because
        // all rows are centred.
        let mut width: i64 = 0;
        let mut i: usize = 0;
        while i < rows.len()
            invariant
                i <= rows@.len(),
                rv == rows@.map_values(|p: (i64, Row)| (p.0, p.1@)),
                rows_wf(rv),
                width == spec_max_row_width(rv.take(i as int)),
                0 <= width <= COORD_LIMIT,
            decreases rows@.len() - i,
        {
            proof {
                assert(rv.take(i + 1).drop_last() =~= rv.take(i as int));
                assert(rv.take(i + 1).last() == rv[i as int]);
                assert(row_wf(rv[i as int].1));
                lemma_row_size_bounds(rv[i as int].1);
            }
            if rows[i].1.get_size().width > width {
                width = rows[i].1.get_size().width;
            }
            i = i + 1;
        }
        proof {
            assert(rv.take(rv.len() as int) =~= rv);
        }
        let height: i64 = if rows.len() == 0 {
            0
        } else {
            proof {
                assert(row_wf(rv.last().1));
                lemma_row_size_bounds(rv.last().1);
            }
            let last = &rows[rows.len() - 1];
            last.0 + last.1.get_size().height
        };
        proof {
            assert forall|j: int| 0 <= j < rv.len() implies (#[trigger] rv[j]).1.size.width
                <= width by {
                lemma_max_row_width_ge(rv, j);
            }
        }
        let mut placed: Vec<(Position, Row)> = Vec::new();
        let mut i: usize = 0;
        while i < rows.len()
            invariant
                i <= rows@.len(),
                rv == rows@.map_values(|p: (i64, Row)| (p.0, p.1@)),
                rows_wf(rv),
                placed@.len() == i,
                forall|j: int|
                    0 <= j < i ==> {
                        let post = #[trigger] placed@[j];
                        post.1@ == rv[j].1 && post.0.y == rv[j].0 && post.0.x == (width
                            - rv[j].1.size.width) / 2
                    },
                0 <= width <= COORD_LIMIT,
                forall|j: int| 0 <= j < rv.len() ==> (#[trigger] rv[j]).1.size.width <= width,
            decreases rows@.len() - i,
        {
            proof {
                assert(rv[i as int].1.size.width <= width);
                lemma_row_size_bounds(rv[i as int].1);
            }
            let row_width = rows[i].1.get_size().width;
            let x = (width - row_width) / 2;
            let (y, row) = (rows[i].0, rows[i].1.clone());
            proof {
                assert(row@ == rv[i as int].1);
            }
            placed.push((Position { x, y }, row));
            i = i + 1;
        }
        let r = LayoutView { rows: placed, size: Size { width, height } };
        proof {
            assert(spec_view_size(rv).width == width && spec_view_size(rv).height == height);
            if rv.len() > 0 {
                assert(rv.last() == rv[rv.len() - 1]);
                lemma_row_size_bounds(rv.last().1);
            }
            assert forall|j: int| 0 <= j < r@.rows.len() implies {
                let rr = #[trigger] r@.rows[j];
                row_wf(rr.1) && rr.1.buttons.len() >= 1 && 0 <= rr.0.y <= UNIT_LIMIT && rr.0.x == (
                r@.size.width - rr.1.size.width) / 2 && rr.1.size.width <= r@.size.width
            } by {
                assert(r@.rows[j].1 == rv[j].1);
            }
        }
        r
    }

    pub fn get_size(&self) -> (r: Size)
        ensures
            r == self@.size,
    {
        self.size
    }

    /// Returns the positioned rows, with their centring x offsets.
    pub fn get_rows(&self) -> (r: &Vec<(Position, Row)>)
        ensures
            r@.map_values(|p: (Position, Row)| (p.0, p.1@)) == self@.rows,
    {
        &self.rows
    }

    /// Finds the button that covers the given point relative to the
    /// view's origin, returning its (row, column) index, or nothing when
    /// the point lies outside the view's bounding box.
    pub fn find_button_by_position(&self, point: &Point) -> (r: Option<(usize, usize)>)
        requires
            view_wf(self@),
            fwf(point@.x),
            fwf(point@.y),
            point@.x.den < FRAC_DEN_LIMIT,
            point@.y.den < FRAC_DEN_LIMIT,
            -crate::geometry::FRAC_NUM_LIMIT < point@.x.num < crate::geometry::FRAC_NUM_LIMIT,
        ensures
            match r {
                Some(idx) => spec_view_hit(self@, point@) == Some((idx.0 as int, idx.1 as int)),
                None => spec_view_hit(self@, point@) is None,
            },
    {
        let bounds = Bounds { x: 0, y: 0, width: self.size.width, height: self.size.height };
        if !bounds.contains(point) {
            return None;
        }
        proof {
            if self@.rows.len() == 0 {
                assert(!flt(fint(0int), point@.y) || !flt(point@.y, fint(0int)));
                assert(false);
            }
        }
        let ys = collect_row_ys(&self.rows);
        proof {
            assert(ys@ =~= row_ys(self@));
            assert(ys@.len() == self@.rows.len());
            assert forall|a: int, b: int| 0 <= a < b < ys@.len() implies #[trigger] ys@[a]
                <= #[trigger] ys@[b] by {
                assert(ys@[a] == self@.rows[a].0.y);
                assert(ys@[b] == self@.rows[b].0.y);
            }
            assert forall|a: int| 0 <= a < ys@.len() implies -COORD_LIMIT <= #[trigger] ys@[a]
                <= COORD_LIMIT by {
                assert(ys@[a] == self@.rows[a].0.y);
            }
        }
        let ri = hit_index(&ys, &point.y);
        proof {
            assert(self@.rows[ri as int] == (self.rows@[ri as int].0, self.rows@[ri as int].1@));
            assert(row_wf(self@.rows[ri as int].1));
            assert(self@.rows[ri as int].0.x == (self@.size.width - self@.rows[
                ri as int].1.size.width) / 2);
            lemma_row_size_bounds(self@.rows[ri as int].1);
        }
        let row_x = self.rows[ri].0.x;
        let local_x = crate::geometry::frac_sub_int(&point.x, row_x);
        let bi = self.rows[ri].1.find_button_by_position(&local_x);
        Some((ri, bi))
    }

    /// Returns a size which contains all the views if they are all
    /// centred on the same point: the maximal width by the maximal
    /// height.
    pub fn calculate_super_size(views: Vec<&LayoutView>) -> (r: Size)
        requires
            forall|i: int|
                0 <= i < views@.len() ==> 0 <= (#[trigger] views@[i])@.size.width <= COORD_LIMIT
                    && 0 <= views@[i]@.size.height <= COORD_LIMIT,
        ensures
            r == spec_super_size(views@.map_values(|v: &LayoutView| v@)),
    {
        let ghost vs = views@.map_values(|v: &LayoutView| v@);
        let mut width: i64 = 0;
        let mut height: i64 = 0;
        let mut i: usize = 0;
        while i < views.len()
            invariant
                i <= views@.len(),
                vs == views@.map_values(|v: &LayoutView| v@),
                forall|j: int|
                    0 <= j < views@.len() ==> 0 <= (#[trigger] views@[j])@.size.width
                        <= COORD_LIMIT && 0 <= views@[j]@.size.height <= COORD_LIMIT,
                (Size { width, height }) == spec_super_size(vs.take(i as int)),
                0 <= width <= COORD_LIMIT,
                0 <= height <= COORD_LIMIT,
            decreases views@.len() - i,
        {
            proof {
                assert(vs.take(i + 1).drop_last() =~= vs.take(i as int));
                assert(vs.take(i + 1).last() == vs[i as int]);
            }
            if views[i].get_size().width > width {
                width = views[i].get_size().width;
            }
            if views[i].get_size().height > height {
                height = views[i].get_size().height;
            }
            i = i + 1;
        }
        proof {
            assert(vs.take(vs.len() as int) =~= vs);
        }
        Size { width, height }
    }
}

/// The smallest size containing every view when all are centred on one
/// point: the maximal width by the maximal height.
pub open spec fn spec_super_size(views: Seq<LayoutViewV>) -> Size
    decreases views.len(),
{
    if views.len() == 0 {
        Size { width: 0, height: 0 }
    } else {
        let rest = spec_super_size(views.drop_last());
        Size {
            width: if views.last().size.width > rest.width {
                views.last().size.width
            } else {
                rest.width
            },
            height: if views.last().size.height > rest.height {
                views.last().size.height
            } else {
                rest.height
            },
        }
    }
}

/// The size a list of authored rows produces: the widest row by the
/// bottom edge of the last row.
pub open spec fn spec_view_size(rows: Seq<(i64, RowV)>) -> Size {
    Size {
        width: spec_max_row_width(rows),
        height: if rows.len() == 0 {
            0
        } else {
            (rows.last().0 + rows.last().1.size.height) as i64
        },
    }
}

/// A well-formed row's size is within bounds.
pub proof fn lemma_row_size_bounds(r: RowV)
    requires
        row_wf(r),
    ensures
        0 <= r.size.width <= COORD_LIMIT,
        0 <= r.size.height <= UNIT_LIMIT,
    decreases r.buttons.len(),
{
    lemma_max_height_bounds(r.buttons);
}

/// The maximal button height is within authored bounds.
pub proof fn lemma_max_height_bounds(buttons: Seq<(i64, ButtonV)>)
    requires
        buttons_wf(buttons),
    ensures
        0 <= spec_max_height(buttons) <= UNIT_LIMIT,
    decreases buttons.len(),
{
    if buttons.len() > 0 {
        assert(buttons_wf(buttons.drop_last()));
        lemma_max_height_bounds(buttons.drop_last());
        assert(buttons.last() == buttons[buttons.len() - 1]);
    }
}

/// Every row's width is bounded by the maximal row width.
pub proof fn lemma_max_row_width_ge(rows: Seq<(i64, RowV)>, j: int)
    requires
        0 <= j < rows.len(),
    ensures
        rows[j].1.size.width <= spec_max_row_width(rows),
    decreases rows.len(),
{
    if j == rows.len() - 1 {
        assert(rows.last() == rows[j]);
    } else {
        assert(rows.drop_last()[j] == rows[j]);
        lemma_max_row_width_ge(rows.drop_last(), j);
    }
}

/// The y offsets of the view's rows, as a plain vector.
fn collect_row_ys(rows: &Vec<(Position, Row)>) -> (r: Vec<i64>)
    ensures
        r@ == rows@.map_values(|p: (Position, Row)| (p.0, p.1@)).map_values(
            |p: (Position, RowV)| p.0.y,
        ),
{
    let mut r: Vec<i64> = Vec::new();
    let mut i: usize = 0;
    while i < rows.len()
        invariant
            i <= rows@.len(),
            r@.len() == i,
            forall|j: int| 0 <= j < i ==> r@[j] == (#[trigger] rows@[j]).0.y,
        decreases rows@.len() - i,
    {
        r.push(rows[i].0.y);
        i = i + 1;
    }
    proof {
        assert(r@ =~= rows@.map_values(|p: (Position, Row)| (p.0, p.1@)).map_values(
            |p: (Position, RowV)| p.0.y,
        ));
    }
    r
}

} // verus!

verus! {

/// Margins around the view area, in layout units.
#[derive(Clone, Copy, Debug, PartialEq, Eq, Structural)]
pub struct Margins {
    pub top: i64,
    pub bottom: i64,
    pub left: i64,
    pub right: i64,
}

/// Whether the current view was entered by a latching lock button, and
/// which view to return to on the next content-producing action.
#[derive(Debug)]
pub enum LatchedState {
    /// Holds the view to return to.
    FromView(String),
    Not,
}

/// Mathematical image of `LatchedState`.
pub ghost enum LatchedV {
    FromView(Seq<char>),
    Not,
}

impl View for LatchedState {
    type V = LatchedV;

    open spec fn view(&self) -> LatchedV {
        match self {
            LatchedState::FromView(v) => LatchedV::FromView(v@),
            LatchedState::Not => LatchedV::Not,
        }
    }
}

/// Button position for the pressed-buttons list: the stable identifier
/// of a key across press and release.
#[derive(Debug)]
pub struct ButtonPosition {
    pub view: String,
    /// Index into the view's rows.
    pub row: usize,
    /// Index into the row's buttons.
    pub position_in_row: usize,
}

/// Mathematical image of `ButtonPosition`.
pub ghost struct ButtonPositionV {
    pub view: Seq<char>,
    pub row: int,
    pub position_in_row: int,
}

impl View for ButtonPosition {
    type V = ButtonPositionV;

    open spec fn view(&self) -> ButtonPositionV {
        ButtonPositionV {
            view: self.view@,
            row: self.row as int,
            position_in_row: self.position_in_row as int,
        }
    }
}

impl Clone for ButtonPosition {
    fn clone(&self) -> (r: Self)
        ensures
            r@ == self@,
    {
        ButtonPosition {
            view: self.view.clone(),
            row: self.row,
            position_in_row: self.position_in_row,
        }
    }
}

impl ButtonPosition {
    /// Field-wise equality.
    pub fn same_as(&self, other: &ButtonPosition) -> (r: bool)
        ensures
            r == (self@ == other@),
    {
        let r = self.view == other.view && self.row == other.row && self.position_in_row
            == other.position_in_row;
        proof {
            if r {
                assert(self@ == other@);
            } else {
                assert(self@ != other@);
            }
        }
        r
    }
}

/// The set of currently pressed buttons.  A button outside the list is
/// in its base state: not pressed.
#[derive(Debug)]
pub struct ActiveButtons(pub Vec<(ButtonPosition, KeyState)>);

/// Mathematical image of `ActiveButtons`: the pressed positions with
/// their key state, in insertion order.
pub open spec fn active_view(a: ActiveButtons) -> Seq<(ButtonPositionV, KeyStateV)> {
    a.0@.map_values(|p: (ButtonPosition, KeyState)| (p.0@, p.1@))
}

impl View for ActiveButtons {
    type V = Seq<(ButtonPositionV, KeyStateV)>;

    open spec fn view(&self) -> Seq<(ButtonPositionV, KeyStateV)> {
        active_view(*self)
    }
}

/// Positions pairwise distinct, and every stored key pressed.
pub open spec fn active_wf(a: Seq<(ButtonPositionV, KeyStateV)>) -> bool {
    &&& forall|i: int, j: int|
        0 <= i < j < a.len() ==> (#[trigger] a[i]).0 != (#[trigger] a[j]).0
    &&& forall|i: int| 0 <= i < a.len() ==> (#[trigger] a[i]).1.pressed == PressType::Pressed
}

/// Is the position in the pressed list?
pub open spec fn active_has(a: Seq<(ButtonPositionV, KeyStateV)>, pos: ButtonPositionV) -> bool {
    exists|i: int| 0 <= i < a.len() && (#[trigger] a[i]).0 == pos
}

impl ActiveButtons {
    /// Index of the entry for `pos`, if one exists.
    pub fn find(&self, pos: &ButtonPosition) -> (r: Option<usize>)
        ensures
            match r {
                Some(i) => i < self@.len() && self@[i as int].0 == pos@,
                None => !active_has(self@, pos@),
            },
    {
        let mut i: usize = 0;
        while i < self.0.len()
            invariant
                i <= self@.len(),
                self@.len() == self.0@.len(),
                forall|j: int| 0 <= j < i ==> (#[trigger] self@[j]).0 != pos@,
                forall|j: int|
                    0 <= j < self@.len() ==> #[trigger] self@[j] == (self.0@[j].0@, self.0@[j].1@),
            decreases self@.len() - i,
        {
            if self.0[i].0.same_as(pos) {
                return Some(i);
            }
            i = i + 1;
        }
        None
    }

    /// The state of the key at the position: the stored one when
    /// pressed, otherwise a released placeholder.
    pub fn get(&self, button: &ButtonPosition) -> (r: KeyState)
        requires
            active_wf(self@),
        ensures
            match spec_active_get(self@, button@) {
                Some(ks) => r@ == ks,
                None => r@.pressed == PressType::Released,
            },
    {
        match self.find(button) {
            Some(i) => {
                proof {
                    assert(active_has(self@, button@));
                    let wi = choose|k: int|
                        0 <= k < self@.len() && (#[trigger] self@[k]).0 == button@;
                    if wi != i {
                        assert(false);
                    }
                }
                KeyState {
                    pressed: self.0[i].1.pressed,
                    keycodes: clone_u32s(&self.0[i].1.keycodes),
                    action: self.0[i].1.action.clone(),
                }
            },
            None => KeyState {
                pressed: PressType::Released,
                keycodes: Vec::new(),
                action: Action::Erase,
            },
        }
    }
}

/// The stored state under a position, when the keys are distinct.
pub open spec fn spec_active_get(
    a: Seq<(ButtonPositionV, KeyStateV)>,
    pos: ButtonPositionV,
) -> Option<KeyStateV> {
    if active_has(a, pos) {
        Some(a[choose|i: int| 0 <= i < a.len() && (#[trigger] a[i]).0 == pos].1)
    } else {
        None
    }
}

/// An element-wise copy of a keycode list.
pub fn clone_u32s(v: &Vec<u32>) -> (r: Vec<u32>)
    ensures
        r@ == v@,
{
    let mut r: Vec<u32> = Vec::new();
    let mut i: usize = 0;
    while i < v.len()
        invariant
            i <= v@.len(),
            r@ == v@.take(i as int),
        decreases v@.len() - i,
    {
        r.push(v[i]);
        i = i + 1;
    }
    proof {
        assert(v@.take(v@.len() as int) =~= v@);
    }
    r
}

} // verus!

verus! {

/// Transition demanded by one action.
#[derive(Debug)]
pub enum ViewTransition {
    /// Switch to this view.
    ChangeTo(String),
    /// Return to the view remembered by the latch.
    UnlatchAll,
    NoChange,
}

/// Mathematical image of `ViewTransition`.
pub ghost enum ViewTransitionV {
    ChangeTo(Seq<char>),
    UnlatchAll,
    NoChange,
}

impl View for ViewTransition {
    type V = ViewTransitionV;

    open spec fn view(&self) -> ViewTransitionV {
        match self {
            ViewTransition::ChangeTo(v) => ViewTransitionV::ChangeTo(v@),
            ViewTransition::UnlatchAll => ViewTransitionV::UnlatchAll,
            ViewTransition::NoChange => ViewTransitionV::NoChange,
        }
    }
}

/// The view-transition table.  Keys go through the following stages when
/// clicked repeatedly: unlocked+unlatched → locked+latched →
/// locked+unlatched → unlocked+unlatched.
///
/// - A content-producing action (submit, erase, modifier) unlatches:
///   it returns to the remembered view if one is latched, and never
///   latches.
/// - `SetView` switches unconditionally and clears the latch.
/// - An unlocked latching `LockView` switches to its lock view and
///   latches (keeping an earlier latch origin if one exists); pressed
///   while latched and locked it merely clears the latch; a
///   non-latching `LockView` switches without latching; pressed while
///   locked and unlatched (or non-latching) it switches to its unlock
///   view.
/// - Anything else changes nothing.
pub open spec fn spec_process_action(
    action: ActionV,
    current_view: Seq<char>,
    latched: LatchedV,
) -> (ViewTransitionV, LatchedV) {
    match action {
        ActionV::Submit { .. } | ActionV::Erase | ActionV::ApplyModifier(_) => (
            match latched {
                LatchedV::FromView(_) => ViewTransitionV::UnlatchAll,
                LatchedV::Not => ViewTransitionV::NoChange,
            },
            LatchedV::Not,
        ),
        ActionV::SetView(view) => (ViewTransitionV::ChangeTo(view), LatchedV::Not),
        ActionV::LockView { lock, unlock, latches, .. } => {
            let locked = spec_is_locked(action, current_view);
            if !locked && latched is Not && latches {
                // Was unlocked: make locked but latched.
                (ViewTransitionV::ChangeTo(lock), LatchedV::FromView(current_view))
            } else if !locked && latched is FromView && latches {
                // Latched for a reason other than this button: keep the
                // original latch origin.
                (ViewTransitionV::ChangeTo(lock), latched)
            } else if locked && latched is FromView && latches {
                // Was latched: now only locked.
                (ViewTransitionV::NoChange, LatchedV::Not)
            } else if !locked && !latches {
                // Was unlocked and cannot latch: make fully locked.
                (ViewTransitionV::ChangeTo(lock), LatchedV::Not)
            } else {
                // Was locked: make unlocked.
                (ViewTransitionV::ChangeTo(unlock), LatchedV::Not)
            }
        },
        ActionV::ShowPreferences => (ViewTransitionV::NoChange, latched),
    }
}

/// Decides the transition for one action.  The returned latch state
/// replaces the current one in any case.
pub fn process_action_for_view(
    action: &Action,
    current_view: &String,
    latched: &LatchedState,
) -> (r: (ViewTransition, LatchedState))
    ensures
        (r.0@, r.1@) == spec_process_action(action@, current_view@, latched@),
{
    match action {
        Action::Submit { .. } | Action::Erase | Action::ApplyModifier(_) => {
            let t = match latched {
                LatchedState::FromView(_) => ViewTransition::UnlatchAll,
                LatchedState::Not => ViewTransition::NoChange,
            };
            (t, LatchedState::Not)
        },
        Action::SetView(view) => (ViewTransition::ChangeTo(view.clone()), LatchedState::Not),
        Action::LockView { lock, unlock, latches, .. } => {
            let locked = action.is_locked(current_view);
            match (locked, latched, latches) {
                (false, LatchedState::Not, true) => (
                    ViewTransition::ChangeTo(lock.clone()),
                    LatchedState::FromView(current_view.clone()),
                ),
                (false, LatchedState::FromView(view), true) => (
                    ViewTransition::ChangeTo(lock.clone()),
                    LatchedState::FromView(view.clone()),
                ),
                (true, LatchedState::FromView(_), true) => (
                    ViewTransition::NoChange,
                    LatchedState::Not,
                ),
                (false, _, false) => (ViewTransition::ChangeTo(lock.clone()), LatchedState::Not),
                (true, _, _) => (ViewTransition::ChangeTo(unlock.clone()), LatchedState::Not),
            }
        },
        Action::ShowPreferences => (ViewTransition::NoChange, latched.clone()),
    }
}

} // verus!

verus! {

/// A builder structure for picking up layout data from storage.
#[derive(Debug)]
pub struct LayoutParseData {
    /// Position is the offset within the panel (in the layout's
    /// coordinate space).
    pub views: Vec<(String, (Position, LayoutView))>,
    /// Keymaps applicable to the contained keys.
    pub keymaps: Vec<String>,
    pub margins: Margins,
}

/// Static, cacheable information for the layout.
#[derive(Debug)]
pub struct LayoutData {
    pub margins: Margins,
    pub kind: ArrangementKind,
    pub purpose: ContentPurpose,
    /// Position is the offset within the layout.  View names are
    /// pairwise distinct.
    pub views: Vec<(String, (Position, LayoutView))>,
    /// Keymaps applicable to the contained keys; unchangeable.
    pub keymaps: Vec<String>,
}

/// Mathematical image of `LayoutData`.
pub ghost struct LayoutDataV {
    pub margins: Margins,
    pub kind: ArrangementKind,
    pub purpose: ContentPurpose,
    pub views: Seq<(Seq<char>, (Position, LayoutViewV))>,
    pub keymaps: Seq<Seq<char>>,
}

impl View for LayoutData {
    type V = LayoutDataV;

    open spec fn view(&self) -> LayoutDataV {
        LayoutDataV {
            margins: self.margins,
            kind: self.kind,
            purpose: self.purpose,
            views: self.views@.map_values(
                |p: (String, (Position, LayoutView))| (p.0@, (p.1.0, p.1.1@)),
            ),
            keymaps: self.keymaps@.map_values(|k: String| k@),
        }
    }
}

/// Is `name` one of the views?
pub open spec fn views_has(
    views: Seq<(Seq<char>, (Position, LayoutViewV))>,
    name: Seq<char>,
) -> bool {
    exists|i: int| 0 <= i < views.len() && (#[trigger] views[i]).0 == name
}

/// The placed view stored under `name` (meaningful when present and
/// names are unique).
pub open spec fn views_get(
    views: Seq<(Seq<char>, (Position, LayoutViewV))>,
    name: Seq<char>,
) -> (Position, LayoutViewV) {
    views[choose|i: int| 0 <= i < views.len() && (#[trigger] views[i]).0 == name].1
}

/// Well-formed layout shape: view names pairwise distinct, views and
/// their offsets within bounds, margins within bounds.
pub open spec fn shape_wf(d: LayoutDataV) -> bool {
    &&& forall|i: int, j: int|
        0 <= i < j < d.views.len() ==> (#[trigger] d.views[i]).0 != (#[trigger] d.views[j]).0
    &&& forall|i: int|
        0 <= i < d.views.len() ==> {
            let v = #[trigger] d.views[i].1;
            &&& view_wf(v.1)
            &&& 0 <= v.0.x <= UNIT_LIMIT
            &&& 0 <= v.0.y <= UNIT_LIMIT
        }
    &&& 0 <= d.margins.top <= UNIT_LIMIT
    &&& 0 <= d.margins.bottom <= UNIT_LIMIT
    &&& 0 <= d.margins.left <= UNIT_LIMIT
    &&& 0 <= d.margins.right <= UNIT_LIMIT
}

/// The button a position denotes, if the view, row and column all exist.
pub open spec fn spec_get_button(d: LayoutDataV, pos: ButtonPositionV) -> Option<ButtonV> {
    if views_has(d.views, pos.view) {
        let v = views_get(d.views, pos.view).1;
        if 0 <= pos.row < v.rows.len() {
            let row = v.rows[pos.row].1;
            if 0 <= pos.position_in_row < row.buttons.len() {
                Some(row.buttons[pos.position_in_row].1)
            } else {
                None
            }
        } else {
            None
        }
    } else {
        None
    }
}

/// The canvas offset of a button within its view, if the indices exist:
/// the row's offset shifted right by the button's own offset.
pub open spec fn spec_find_button_place(v: LayoutViewV, row: int, position_in_row: int) -> Option<
    (Position, ButtonV),
> {
    if 0 <= row < v.rows.len() && 0 <= position_in_row < v.rows[row].1.buttons.len() {
        let r = v.rows[row];
        let b = r.1.buttons[position_in_row];
        Some((Position { x: (r.0.x + b.0) as i64, y: r.0.y }, b.1))
    } else {
        None
    }
}

/// Finds the canvas offset of the button within its view.
pub fn find_button_place(view: &LayoutView, row: usize, position_in_row: usize) -> (r: Option<
    (Position, &Button),
>)
    requires
        view_wf(view@),
    ensures
        match r {
            Some(p) => spec_find_button_place(view@, row as int, position_in_row as int)
                == Some((p.0, p.1@)),
            None => spec_find_button_place(view@, row as int, position_in_row as int) is None,
        },
{
    if row >= view.rows.len() {
        return None;
    }
    proof {
        assert(view@.rows[row as int] == (view.rows@[row as int].0, view.rows@[row as int].1@));
        assert(row_wf(view@.rows[row as int].1));
        lemma_row_size_bounds(view@.rows[row as int].1);
    }
    let row_entry = &view.rows[row];
    if position_in_row >= row_entry.1.buttons.len() {
        return None;
    }
    proof {
        assert(view@.rows[row as int].1.buttons[position_in_row as int] == (
            row_entry.1.buttons@[position_in_row as int].0,
            row_entry.1.buttons@[position_in_row as int].1@,
        ));
        assert(0 <= view@.rows[row as int].1.buttons[position_in_row as int].0 <= UNIT_LIMIT);
        assert(0 <= view@.rows[row as int].0.x <= COORD_LIMIT);
    }
    let x_offset = row_entry.1.buttons[position_in_row].0;
    Some((
        Position { x: row_entry.0.x + x_offset, y: row_entry.0.y },
        &row_entry.1.buttons[position_in_row].1,
    ))
}

impl LayoutData {
    /// Index of the view stored under `name`, if one exists.
    pub fn find_view_index(&self, name: &String) -> (r: Option<usize>)
        ensures
            match r {
                Some(i) => i < self@.views.len() && self@.views[i as int].0 == name@,
                None => !views_has(self@.views, name@),
            },
    {
        let mut i: usize = 0;
        while i < self.views.len()
            invariant
                i <= self.views@.len(),
                self@.views.len() == self.views@.len(),
                forall|j: int| 0 <= j < i ==> (#[trigger] self@.views[j]).0 != name@,
                forall|j: int|
                    0 <= j < self.views@.len() ==> #[trigger] self@.views[j] == (
                        self.views@[j].0@,
                        (self.views@[j].1.0, self.views@[j].1.1@),
                    ),
            decreases self.views@.len() - i,
        {
            if self.views[i].0 == *name {
                return Some(i);
            }
            i = i + 1;
        }
        None
    }

    /// The button a position denotes, if it exists.
    pub fn get_button(&self, button: &ButtonPosition) -> (r: Option<&Button>)
        requires
            shape_wf(self@),
        ensures
            match r {
                Some(b) => spec_get_button(self@, button@) == Some(b@),
                None => spec_get_button(self@, button@) is None,
            },
    {
        match self.find_view_index(&button.view) {
            None => None,
            Some(vi) => {
                proof {
                    let wi = choose|k: int|
                        0 <= k < self@.views.len() && (#[trigger] self@.views[k]).0
                            == button@.view;
                    assert(views_has(self@.views, button@.view));
                    if wi != vi {
                        assert(false);
                    }
                }
                let view = &self.views[vi].1.1;
                proof {
                    assert(view@ == views_get(self@.views, button@.view).1);
                }
                if button.row >= view.rows.len() {
                    return None;
                }
                proof {
                    assert(view@.rows[button.row as int] == (
                        view.rows@[button.row as int].0,
                        view.rows@[button.row as int].1@,
                    ));
                }
                let row = &view.rows[button.row].1;
                if button.position_in_row >= row.buttons.len() {
                    return None;
                }
                proof {
                    assert(view@.rows[button.row as int].1.buttons[
                        button.position_in_row as int] == (
                        row.buttons@[button.position_in_row as int].0,
                        row.buttons@[button.position_in_row as int].1@,
                    ));
                }
                Some(&row.buttons[button.position_in_row].1)
            },
        }
    }

    /// The canvas offset of the button within its view, if it exists.
    pub fn find_button_place(&self, button: &ButtonPosition) -> (r: Option<(Position, &Button)>)
        requires
            shape_wf(self@),
        ensures
            match r {
                Some(p) => views_has(self@.views, button@.view) && spec_find_button_place(
                    views_get(self@.views, button@.view).1,
                    button@.row,
                    button@.position_in_row,
                ) == Some((p.0, p.1@)),
                None => !views_has(self@.views, button@.view) || spec_find_button_place(
                    views_get(self@.views, button@.view).1,
                    button@.row,
                    button@.position_in_row,
                ) is None,
            },
    {
        match self.find_view_index(&button.view) {
            None => None,
            Some(vi) => {
                proof {
                    let wi = choose|k: int|
                        0 <= k < self@.views.len() && (#[trigger] self@.views[k]).0
                            == button@.view;
                    assert(views_has(self@.views, button@.view));
                    if wi != vi {
                        assert(false);
                    }
                    assert(view_wf(self@.views[vi as int].1.1));
                }
                find_button_place(&self.views[vi].1.1, button.row, button.position_in_row)
            },
        }
    }
}

} // verus!

verus! {

/// The size of the view area: all views, centred on one point.
pub open spec fn spec_inner_size(d: LayoutDataV) -> Size {
    spec_super_size(d.views.map_values(|p: (Seq<char>, (Position, LayoutViewV))| p.1.1))
}

/// The size of the layout including margins.
pub open spec fn spec_calc_size(d: LayoutDataV) -> Size {
    Size {
        width: (d.margins.left + spec_inner_size(d).width + d.margins.right) as i64,
        height: (d.margins.top + spec_inner_size(d).height + d.margins.bottom) as i64,
    }
}

/// The super size of bounded views is bounded.
pub proof fn lemma_super_size_bounds(views: Seq<LayoutViewV>)
    requires
        forall|i: int|
            0 <= i < views.len() ==> 0 <= (#[trigger] views[i]).size.width <= COORD_LIMIT && 0
                <= views[i].size.height <= COORD_LIMIT,
    ensures
        0 <= spec_super_size(views).width <= COORD_LIMIT,
        0 <= spec_super_size(views).height <= COORD_LIMIT,
    decreases views.len(),
{
    if views.len() > 0 {
        assert(views.last() == views[views.len() - 1]);
        lemma_super_size_bounds(views.drop_last());
    }
}

/// The transformation placing the layout in the available widget area:
/// scales are `available / size` per axis, with the horizontal scale
/// allowed to exceed the vertical by up to five and a half percent for
/// filling the width; the content is centred and then shifted by the
/// margins.
pub open spec fn spec_calc_transformation(d: LayoutDataV, available: Size) -> TransV {
    let size = spec_calc_size(d);
    let scale_x = if 200 * (available.width * size.height) < 211 * (available.height
        * size.width) {
        FracV { num: available.width as int, den: size.width as int }
    } else {
        FracV { num: available.height as int, den: size.height as int }
    };
    let scale_y = if available.width * size.height <= available.height * size.width {
        FracV { num: available.width as int, den: size.width as int }
    } else {
        FracV { num: available.height as int, den: size.height as int }
    };
    TransV {
        origin_x: FracV {
            num: available.width * scale_x.den - scale_x.num * size.width + 2 * (scale_x.num
                * d.margins.left),
            den: 2 * scale_x.den,
        },
        origin_y: FracV {
            num: available.height * scale_y.den - scale_y.num * size.height + 2 * (scale_y.num
                * d.margins.top),
            den: 2 * scale_y.den,
        },
        scale_x,
        scale_y,
    }
}

impl LayoutData {
    /// Calculates the size of the view area, without margins.
    pub fn calculate_inner_size(&self) -> (r: Size)
        requires
            shape_wf(self@),
        ensures
            r == spec_inner_size(self@),
    {
        let mut refs: Vec<&LayoutView> = Vec::new();
        let mut i: usize = 0;
        while i < self.views.len()
            invariant
                i <= self.views@.len(),
                refs@.len() == i,
                forall|j: int| 0 <= j < i ==> (#[trigger] refs@[j])@ == self@.views[j].1.1,
                shape_wf(self@),
                self@.views.len() == self.views@.len(),
            decreases self.views@.len() - i,
        {
            proof {
                assert(self@.views[i as int] == (
                    self.views@[i as int].0@,
                    (self.views@[i as int].1.0, self.views@[i as int].1.1@),
                ));
            }
            refs.push(&self.views[i].1.1);
            i = i + 1;
        }
        proof {
            assert(refs@.map_values(|v: &LayoutView| v@) =~= self@.views.map_values(
                |p: (Seq<char>, (Position, LayoutViewV))| p.1.1,
            ));
            assert forall|j: int| 0 <= j < refs@.len() implies 0 <= (
            #[trigger] refs@[j])@.size.width <= COORD_LIMIT && 0 <= refs@[j]@.size.height
                <= COORD_LIMIT by {
                assert(view_wf(self@.views[j].1.1));
            }
        }
        LayoutView::calculate_super_size(refs)
    }

    /// The layout's size including margins.
    pub fn calculate_size(&self) -> (r: Size)
        requires
            shape_wf(self@),
        ensures
            r == spec_calc_size(self@),
            0 <= r.width <= COORD_LIMIT + 2 * UNIT_LIMIT,
            0 <= r.height <= COORD_LIMIT + 2 * UNIT_LIMIT,
    {
        let inner_size = self.calculate_inner_size();
        proof {
            lemma_super_size_bounds(
                self@.views.map_values(|p: (Seq<char>, (Position, LayoutViewV))| p.1.1),
            );
        }
        Size {
            width: self.margins.left + inner_size.width + self.margins.right,
            height: self.margins.top + inner_size.height + self.margins.bottom,
        }
    }

    /// Positions the layout contents within the available space; the
    /// origin of the transformation is the point inside the margins.
    pub fn calculate_transformation(&self, available: Size) -> (r: Transformation)
        requires
            shape_wf(self@),
            1 <= available.width <= COORD_LIMIT,
            1 <= available.height <= COORD_LIMIT,
            spec_calc_size(self@).width >= 1,
            spec_calc_size(self@).height >= 1,
        ensures
            r@ == spec_calc_transformation(self@, available),
            twf(r@),
    {
        let size = self.calculate_size();
        let aw: i128 = available.width as i128;
        let ah: i128 = available.height as i128;
        let sw: i128 = size.width as i128;
        let sh: i128 = size.height as i128;
        proof {
            lemma_mul_bounds(aw as int, sh as int, COORD_LIMIT as int, 0x200000);
            lemma_mul_bounds(ah as int, sw as int, COORD_LIMIT as int, 0x200000);
        }
        let stretch = 200 * (aw * sh) < 211 * (ah * sw);
        let (sxn, sxd): (i64, i64) = if stretch {
            (available.width, size.width)
        } else {
            (available.height, size.height)
        };
        let (syn, syd): (i64, i64) = if aw * sh <= ah * sw {
            (available.width, size.width)
        } else {
            (available.height, size.height)
        };
        proof {
            lemma_mul_bounds(aw as int, sxd as int, COORD_LIMIT as int, 0x200000);
            lemma_mul_bounds(sxn as int, sw as int, COORD_LIMIT as int, 0x200000);
            lemma_mul_bounds(sxn as int, self.margins.left as int, COORD_LIMIT as int, UNIT_LIMIT as int);
            lemma_mul_bounds(ah as int, syd as int, COORD_LIMIT as int, 0x200000);
            lemma_mul_bounds(syn as int, sh as int, COORD_LIMIT as int, 0x200000);
            lemma_mul_bounds(syn as int, self.margins.top as int, COORD_LIMIT as int, UNIT_LIMIT as int);
        }
        let origin_x = Fraction {
            num: aw * (sxd as i128) - (sxn as i128) * sw + 2 * ((sxn as i128)
                * (self.margins.left as i128)),
            den: 2 * (sxd as i128),
        };
        let origin_y = Fraction {
            num: ah * (syd as i128) - (syn as i128) * sh + 2 * ((syn as i128)
                * (self.margins.top as i128)),
            den: 2 * (syd as i128),
        };
        Transformation {
            origin_x,
            origin_y,
            scale_x: Fraction { num: sxn as i128, den: sxd as i128 },
            scale_y: Fraction { num: syn as i128, den: syd as i128 },
        }
    }
}

} // verus!

verus! {

/// Changeable state that can't be derived from the definition of the
/// layout.
#[derive(Debug)]
pub struct LayoutState {
    /// Always the name of one of the shape's views.
    pub current_view: String,
    /// If the current view is latched, clicking any button that emits an
    /// action (erase, submit, modifier) will cause lock buttons to
    /// unlatch.
    pub view_latched: LatchedState,
    /// Buttons not in this list are in their base state: not pressed.
    pub active_buttons: ActiveButtons,
}

/// Mathematical image of `LayoutState`.
pub ghost struct LayoutStateV {
    pub current_view: Seq<char>,
    pub view_latched: LatchedV,
    pub active: Seq<(ButtonPositionV, KeyStateV)>,
}

impl View for LayoutState {
    type V = LayoutStateV;

    open spec fn view(&self) -> LayoutStateV {
        LayoutStateV {
            current_view: self.current_view@,
            view_latched: self.view_latched@,
            active: self.active_buttons@,
        }
    }
}

/// Associates the state of a layout with its definition.  Contains
/// everything necessary to present the layout to the user and to
/// determine its reactions to inputs.
#[derive(Debug)]
pub struct Layout {
    pub state: LayoutState,
    pub shape: LayoutData,
}

/// Mathematical image of `Layout`.
pub ghost struct LayoutV {
    pub state: LayoutStateV,
    pub shape: LayoutDataV,
}

impl View for Layout {
    type V = LayoutV;

    open spec fn view(&self) -> LayoutV {
        LayoutV { state: self.state@, shape: self.shape@ }
    }
}

/// The layout invariant: a well-formed shape, a current view that
/// exists, and a pressed list of distinct, pressed, existing buttons.
pub open spec fn layout_wf(l: LayoutV) -> bool {
    &&& shape_wf(l.shape)
    &&& views_has(l.shape.views, l.state.current_view)
    &&& active_wf(l.state.active)
    &&& forall|i: int|
        0 <= i < l.state.active.len() ==> spec_get_button(
            l.shape,
            (#[trigger] l.state.active[i]).0,
        ) is Some
}

/// Error of switching to a view the layout does not have.
#[derive(Debug)]
pub struct NoSuchView;

/// The state after restoring the latched view: the remembered view
/// becomes current and the latch clears, but a remembered view that no
/// longer exists is ignored.
pub open spec fn spec_unstick(l: LayoutV) -> LayoutStateV {
    match l.state.view_latched {
        LatchedV::FromView(name) => {
            if views_has(l.shape.views, name) {
                LayoutStateV { current_view: name, view_latched: LatchedV::Not, ..l.state }
            } else {
                l.state
            }
        },
        LatchedV::Not => l.state,
    }
}

/// The state after one action's view transition: the transition from
/// [`spec_process_action`] is carried out (switches to unknown views are
/// ignored) and the new latch state is stored.
pub open spec fn spec_apply_transition(l: LayoutV, action: ActionV) -> LayoutStateV {
    let tl = spec_process_action(action, l.state.current_view, l.state.view_latched);
    let mid = match tl.0 {
        ViewTransitionV::UnlatchAll => spec_unstick(l),
        ViewTransitionV::ChangeTo(view) => {
            if views_has(l.shape.views, view) {
                LayoutStateV { current_view: view, ..l.state }
            } else {
                l.state
            }
        },
        ViewTransitionV::NoChange => l.state,
    };
    LayoutStateV { view_latched: tl.1, ..mid }
}

impl Layout {
    /// Builds a fresh layout starting at the `base` view, with nothing
    /// pressed and nothing latched.
    pub fn new(data: LayoutParseData, kind: ArrangementKind, purpose: ContentPurpose) -> (r:
        Layout)
        requires
            shape_wf(
                LayoutDataV {
                    margins: data.margins,
                    kind,
                    purpose,
                    views: data.views@.map_values(
                        |p: (String, (Position, LayoutView))| (p.0@, (p.1.0, p.1.1@)),
                    ),
                    keymaps: data.keymaps@.map_values(|k: String| k@),
                },
            ),
            views_has(
                data.views@.map_values(
                    |p: (String, (Position, LayoutView))| (p.0@, (p.1.0, p.1.1@)),
                ),
                "base"@,
            ),
        ensures
            layout_wf(r@),
            r@.shape.kind == kind,
            r@.shape.purpose == purpose,
            r@.shape.views == data.views@.map_values(
                |p: (String, (Position, LayoutView))| (p.0@, (p.1.0, p.1.1@)),
            ),
            r@.shape.keymaps == data.keymaps@.map_values(|k: String| k@),
            r@.shape.margins == data.margins,
            r@.state.current_view == "base"@,
            r@.state.view_latched == LatchedV::Not,
            r@.state.active.len() == 0,
    {
        let r = Layout {
            shape: LayoutData {
                kind,
                views: data.views,
                keymaps: data.keymaps,
                margins: data.margins,
                purpose,
            },
            state: LayoutState {
                current_view: "base".to_owned(),
                view_latched: LatchedState::Not,
                active_buttons: ActiveButtons(Vec::new()),
            },
        };
        proof {
            assert(r@.state.active =~= Seq::<(ButtonPositionV, KeyStateV)>::empty());
        }
        r
    }

    /// The current view together with its offset within the layout.
    pub fn get_current_view_position(&self) -> (r: &(Position, LayoutView))
        requires
            layout_wf(self@),
        ensures
            (r.0, r.1@) == views_get(self@.shape.views, self@.state.current_view),
    {
        match self.shape.find_view_index(&self.state.current_view) {
            Some(i) => {
                proof {
                    let wi = choose|k: int|
                        0 <= k < self@.shape.views.len() && (#[trigger] self@.shape.views[k]).0
                            == self@.state.current_view;
                    if wi != i {
                        assert(false);
                    }
                }
                &self.shape.views[i].1
            },
            None => {
                proof {
                    assert(false);
                }
                &self.shape.views[0].1
            },
        }
    }

    /// The current view.
    pub fn get_current_view(&self) -> (r: &LayoutView)
        requires
            layout_wf(self@),
        ensures
            r@ == views_get(self@.shape.views, self@.state.current_view).1,
    {
        &self.get_current_view_position().1
    }

    /// Switches to the named view; fails, changing nothing, when the
    /// layout has no view of that name.
    pub fn set_view(&mut self, view: String) -> (r: Result<(), NoSuchView>)
        ensures
            final(self).shape == old(self).shape,
            final(self)@.state.view_latched == old(self)@.state.view_latched,
            final(self)@.state.active == old(self)@.state.active,
            match r {
                Ok(_) => views_has(old(self)@.shape.views, view@) && final(self)@.state.current_view == view@,
                Err(_) => !views_has(old(self)@.shape.views, view@) && final(self)@.state.current_view == old(self)@.state.current_view,
            },
    {
        match self.shape.find_view_index(&view) {
            Some(_) => {
                proof {
                    assert(views_has(self@.shape.views, view@));
                }
                self.state.current_view = view;
                Ok(())
            },
            None => Err(NoSuchView),
        }
    }

    /// Which view the latch remembers, if any.
    pub fn get_view_latched(&self) -> (r: &LatchedState)
        ensures
            r@ == self@.state.view_latched,
    {
        &self.state.view_latched
    }

    /// Unlatch all latched keys, so that the current view becomes the
    /// one from before the first latching press.  A remembered view
    /// missing from the shape is ignored.
    pub fn unstick_locks(&mut self)
        requires
            layout_wf(old(self)@),
        ensures
            final(self).shape == old(self).shape,
            final(self)@.state == spec_unstick(old(self)@),
            layout_wf(final(self)@),
    {
        let name = match &self.state.view_latched {
            LatchedState::FromView(name) => Some(name.clone()),
            LatchedState::Not => None,
        };
        match name {
            Some(name) => {
                match self.set_view(name) {
                    Ok(()) => {
                        self.state.view_latched = LatchedState::Not;
                    },
                    Err(NoSuchView) => {
                        // A missing return view means broken layout
                        // data; it is ignored so that typing can go on.
                    },
                }
            },
            None => {},
        }
    }

    /// Carries out the view transition that releasing a button with the
    /// given action demands.
    pub fn apply_view_transition(&mut self, action: &Action)
        requires
            layout_wf(old(self)@),
        ensures
            final(self).shape == old(self).shape,
            final(self)@.state == spec_apply_transition(old(self)@, action@),
            layout_wf(final(self)@),
    {
        let (transition, new_latched) = process_action_for_view(
            action,
            &self.state.current_view,
            &self.state.view_latched,
        );
        match transition {
            ViewTransition::UnlatchAll => self.unstick_locks(),
            ViewTransition::ChangeTo(view) => {
                let _ignored = self.set_view(view);
            },
            ViewTransition::NoChange => {},
        }
        self.state.view_latched = new_latched;
    }

    /// The index of the button under `point` within the current view, if
    /// any; `point` is relative to the layout's origin.
    pub fn find_index_by_position(&self, point: &Point) -> (r: Option<(usize, usize)>)
        requires
            layout_wf(self@),
            fwf(point@.x),
            fwf(point@.y),
            point@.x.den < FRAC_DEN_LIMIT,
            point@.y.den < FRAC_DEN_LIMIT,
            -0x80_0000_0000_0000_0000_0000_0000 < point@.x.num < 0x80_0000_0000_0000_0000_0000_0000,
            -0x80_0000_0000_0000_0000_0000_0000 < point@.y.num < 0x80_0000_0000_0000_0000_0000_0000,
        ensures
            match r {
                Some(idx) => spec_find_index(self@, point@) == Some((idx.0 as int, idx.1 as int)),
                None => spec_find_index(self@, point@) is None,
            },
            match r {
                Some(idx) => spec_get_button(
                    self@.shape,
                    ButtonPositionV {
                        view: self@.state.current_view,
                        row: idx.0 as int,
                        position_in_row: idx.1 as int,
                    },
                ) is Some,
                None => true,
            },
    {
        let place = self.get_current_view_position();
        proof {
            let pv = views_get(self@.shape.views, self@.state.current_view);
            assert(view_wf(pv.1) && 0 <= pv.0.x <= UNIT_LIMIT && 0 <= pv.0.y <= UNIT_LIMIT) by {
                let wi = choose|k: int|
                    0 <= k < self@.shape.views.len() && (#[trigger] self@.shape.views[k]).0
                        == self@.state.current_view;
                assert(self@.shape.views[wi].1 == pv);
            }
        }
        let local = Point {
            x: crate::geometry::frac_sub_int(&point.x, place.0.x),
            y: crate::geometry::frac_sub_int(&point.y, place.0.y),
        };
        proof {
            lemma_mul_bounds(
                place.0.x as int,
                point@.x.den,
                UNIT_LIMIT as int,
                FRAC_DEN_LIMIT as int,
            );
        }
        let r = place.1.find_button_by_position(&local);
        proof {
            let pv = views_get(self@.shape.views, self@.state.current_view);
            assert(local@ == (PointV {
                x: fsub(point@.x, fint(pv.0.x as int)),
                y: fsub(point@.y, fint(pv.0.y as int)),
            }));
            assert(spec_find_index(self@, point@) == spec_view_hit(pv.1, local@));
            if r is Some {
                lemma_view_hit_valid(pv.1, local@);
            }
        }
        r
    }
}

/// The button index a layout-space point resolves to: the hit within the
/// current view, after removing the view's own offset.
pub open spec fn spec_find_index(l: LayoutV, p: PointV) -> Option<(int, int)> {
    let place = views_get(l.shape.views, l.state.current_view);
    spec_view_hit(
        place.1,
        PointV {
            x: fsub(p.x, fint(place.0.x as int)),
            y: fsub(p.y, fint(place.0.y as int)),
        },
    )
}

/// A hit returned by the view hit test denotes an existing button.
pub proof fn lemma_view_hit_valid(v: LayoutViewV, p: PointV)
    requires
        view_wf(v),
        spec_view_hit(v, p) is Some,
    ensures
        ({
            let idx = spec_view_hit(v, p).unwrap();
            &&& 0 <= idx.0 < v.rows.len()
            &&& 0 <= idx.1 < v.rows[idx.0].1.buttons.len()
        }),
{
    if v.rows.len() == 0 {
        assert(!spec_contains(
            Bounds { x: 0, y: 0, width: v.size.width, height: v.size.height },
            p,
        ));
    } else {
        lemma_hit_in_range(row_ys(v), p.y);
        let ri = spec_hit(row_ys(v), p.y);
        let row = v.rows[ri].1;
        assert(row.buttons.len() >= 1);
        lemma_hit_in_range(row_offsets(row), fsub(p.x, fint(v.rows[ri].0.x as int)));
    }
}

/// The hit index lies within the offsets.
pub proof fn lemma_hit_in_range(offs: Seq<i64>, x: FracV)
    requires
        offs.len() >= 1,
    ensures
        0 <= spec_hit(offs, x) < offs.len(),
    decreases offs.len(),
{
    if offs.len() > 1 && !fle(fint(offs.last() as int), x) {
        lemma_hit_in_range(offs.drop_last(), x);
    }
}

/// Switches to the named view, ignoring (and merely noting) a view that
/// does not exist.
pub fn try_set_view(layout: &mut Layout, view_name: String)
    ensures
        final(layout).shape == old(layout).shape,
        final(layout)@.state.view_latched == old(layout)@.state.view_latched,
        final(layout)@.state.active == old(layout)@.state.active,
        final(layout)@.state.current_view == if views_has(old(layout)@.shape.views, view_name@) {
            view_name@
        } else {
            old(layout)@.state.current_view
        },
{
    let _ignored = layout.set_view(view_name);
}

/// The transformation from widget coordinates to layout coordinates for
/// a layout shown in the given widget area.
pub struct UIBackend {
    pub widget_to_layout: Transformation,
}

} // verus!
