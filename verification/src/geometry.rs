//! Exact plane geometry for the layout engine.
//!
//! Lengths authored in a layout (button sizes, offsets, margins) are
//! integer layout units; the panel-level transformation between widget
//! space and layout space scales by output-dependent ratios, so
//! transformed coordinates are exact rational numbers.  A [`Fraction`]
//! keeps numerator and denominator separately; all comparisons
//! cross-multiply, so no precision is ever lost.

use vstd::prelude::*;

verus! {

/// Magnitude bound for authored layout coordinates (offsets, sizes,
/// margins, widget positions).  Numbers this size keep every product
/// computed by the engine inside `i128`.
pub const COORD_LIMIT: i64 = 1048576;

/// Magnitude bound for the numerator of a transformed coordinate.
pub const FRAC_NUM_LIMIT: i128 = 0x100_0000_0000_0000_0000_0000_0000;

/// Magnitude bound for the denominator of a transformed coordinate.
pub const FRAC_DEN_LIMIT: i128 = 0x40_0000_0000_0000_0000;

/// Bound on a product from bounds on its factors.
pub proof fn lemma_mul_bounds(a: int, b: int, ab: int, bb: int)
    requires
        -ab <= a <= ab,
        -bb <= b <= bb,
        0 <= ab,
        0 <= bb,
    ensures
        -(ab * bb) <= a * b <= ab * bb,
        a > 0 && b > 0 ==> a * b > 0,
{
    assert(-(ab * bb) <= a * b <= ab * bb && (a > 0 && b > 0 ==> a * b > 0))
        by (nonlinear_arith)
        requires
            -ab <= a <= ab,
            -bb <= b <= bb,
            0 <= ab,
            0 <= bb,
    ;
}

/// Mathematical image of a fraction: an integer pair with positive
/// denominator.
pub ghost struct FracV {
    pub num: int,
    pub den: int,
}

/// Well-formed fraction value.
pub open spec fn fwf(f: FracV) -> bool {
    f.den > 0
}

/// The integer `x` as a fraction.
pub open spec fn fint(x: int) -> FracV {
    FracV { num: x, den: 1 }
}

/// Value equality of fractions: `a/b == c/d` iff `a*d == c*b`.
pub open spec fn feq(a: FracV, b: FracV) -> bool {
    a.num * b.den == b.num * a.den
}

/// Value order (meaningful for positive denominators).
pub open spec fn flt(a: FracV, b: FracV) -> bool {
    a.num * b.den < b.num * a.den
}

/// Value order, non-strict.
pub open spec fn fle(a: FracV, b: FracV) -> bool {
    a.num * b.den <= b.num * a.den
}

pub open spec fn fadd(a: FracV, b: FracV) -> FracV {
    FracV { num: a.num * b.den + b.num * a.den, den: a.den * b.den }
}

pub open spec fn fsub(a: FracV, b: FracV) -> FracV {
    FracV { num: a.num * b.den - b.num * a.den, den: a.den * b.den }
}

pub open spec fn fmul(a: FracV, b: FracV) -> FracV {
    FracV { num: a.num * b.num, den: a.den * b.den }
}

/// Division keeps the denominator positive by moving the divisor's sign
/// into the numerator.
pub open spec fn fdiv(a: FracV, b: FracV) -> FracV {
    if b.num >= 0 {
        FracV { num: a.num * b.den, den: a.den * b.num }
    } else {
        FracV { num: -(a.num * b.den), den: -(a.den * b.num) }
    }
}

/// An exact rational coordinate.
#[derive(Clone, Copy, Debug)]
pub struct Fraction {
    pub num: i128,
    pub den: i128,
}

impl View for Fraction {
    type V = FracV;

    open spec fn view(&self) -> FracV {
        FracV { num: self.num as int, den: self.den as int }
    }
}

/// A fraction whose representation is within the engine's bounds: every
/// coordinate the engine computes satisfies this.
pub open spec fn fbounded(f: FracV) -> bool {
    &&& 0 < f.den < FRAC_DEN_LIMIT
    &&& -FRAC_NUM_LIMIT < f.num < FRAC_NUM_LIMIT
}

impl Fraction {
    pub fn from_int(x: i64) -> (r: Fraction)
        ensures
            r@ == fint(x as int),
    {
        Fraction { num: x as i128, den: 1 }
    }

    /// Do the two fractions denote the same rational number?  One of the
    /// two operands must be small (an authored value); the other may be
    /// any coordinate the engine computed.
    pub fn same_value(&self, other: &Fraction) -> (r: bool)
        requires
            fbounded(self@),
            fbounded(other@),
            -0x400000 < other@.num < 0x400000 && other@.den < 0x400000 || -0x400000 < self@.num
                < 0x400000 && self@.den < 0x400000,
        ensures
            r == feq(self@, other@),
    {
        proof {
            if -0x400000 < other@.num < 0x400000 && other@.den < 0x400000 {
                lemma_mul_bounds(self@.num, other@.den, FRAC_NUM_LIMIT as int, 0x400000);
                lemma_mul_bounds(other@.num, self@.den, 0x400000, FRAC_DEN_LIMIT as int);
            } else {
                lemma_mul_bounds(self@.num, other@.den, 0x400000, FRAC_DEN_LIMIT as int);
                lemma_mul_bounds(other@.num, self@.den, FRAC_NUM_LIMIT as int, 0x400000);
            }
        }
        self.num * other.den == other.num * self.den
    }
}

/// Comparison of an integer against a fraction: `x <= f`.
pub fn int_le_frac(x: i64, f: &Fraction) -> (r: bool)
    requires
        fwf(f@),
        f@.den < FRAC_DEN_LIMIT,
        -2 * COORD_LIMIT <= x <= 2 * COORD_LIMIT,
    ensures
        r == fle(fint(x as int), f@),
{
    proof {
        lemma_mul_bounds(x as int, f@.den, 2 * COORD_LIMIT as int, FRAC_DEN_LIMIT as int);
    }
    (x as i128) * f.den <= f.num
}

/// Comparison of a fraction against an integer: `f < x`.
pub fn frac_lt_int(f: &Fraction, x: i64) -> (r: bool)
    requires
        fwf(f@),
        f@.den < FRAC_DEN_LIMIT,
        -2 * COORD_LIMIT <= x <= 2 * COORD_LIMIT,
    ensures
        r == flt(f@, fint(x as int)),
{
    proof {
        lemma_mul_bounds(x as int, f@.den, 2 * COORD_LIMIT as int, FRAC_DEN_LIMIT as int);
    }
    f.num < (x as i128) * f.den
}

/// Comparison of an integer against a fraction: `x < f`.
pub fn int_lt_frac(x: i64, f: &Fraction) -> (r: bool)
    requires
        fwf(f@),
        f@.den < FRAC_DEN_LIMIT,
        -2 * COORD_LIMIT <= x <= 2 * COORD_LIMIT,
    ensures
        r == flt(fint(x as int), f@),
{
    proof {
        lemma_mul_bounds(x as int, f@.den, 2 * COORD_LIMIT as int, FRAC_DEN_LIMIT as int);
    }
    (x as i128) * f.den < f.num
}

/// `f - x` for an integer `x`, on the same denominator.
pub fn frac_sub_int(f: &Fraction, x: i64) -> (r: Fraction)
    requires
        fbounded(f@),
        -2 * COORD_LIMIT <= x <= 2 * COORD_LIMIT,
    ensures
        fwf(r@),
        r@.den == f@.den,
        r@.num == f@.num - x * f@.den,
        r@ == fsub(f@, fint(x as int)),
        feq(r@, fsub(f@, fint(x as int))),
{
    proof {
        lemma_mul_bounds(x as int, f@.den, 2 * COORD_LIMIT as int, FRAC_DEN_LIMIT as int);
    }
    let r = Fraction { num: f.num - (x as i128) * f.den, den: f.den };
    proof {
        assert(f@.num * 1 == f@.num) by (nonlinear_arith);
        assert(f@.den * 1 == f@.den) by (nonlinear_arith);
        assert(r@ == fsub(f@, fint(x as int)));
    }
    proof {
        let rv = r@;
        let fv = f@;
        let xi = x as int;
        assert(rv.num * fsub(fv, fint(xi)).den == fsub(fv, fint(xi)).num * rv.den)
            by (nonlinear_arith)
            requires
                rv.den == fv.den,
                rv.num == fv.num - xi * fv.den,
        ;
    }
    r
}

/// A point with exact rational coordinates.
#[derive(Clone, Copy, Debug)]
pub struct Point {
    pub x: Fraction,
    pub y: Fraction,
}

/// Mathematical image of `Point`.
pub ghost struct PointV {
    pub x: FracV,
    pub y: FracV,
}

impl View for Point {
    type V = PointV;

    open spec fn view(&self) -> PointV {
        PointV { x: self.x@, y: self.y@ }
    }
}

/// A point whose coordinates are within the engine's bounds.
pub open spec fn pbounded(p: PointV) -> bool {
    &&& fbounded(p.x)
    &&& fbounded(p.y)
}

/// A point built directly from integer widget coordinates, or any point
/// with a representation at least as small.
pub open spec fn small_point(p: PointV) -> bool {
    &&& fwf(p.x)
    &&& fwf(p.y)
    &&& p.x.den < 0x400000
    &&& p.y.den < 0x400000
    &&& -0x400000 < p.x.num < 0x400000
    &&& -0x400000 < p.y.num < 0x400000
}

impl Point {
    pub fn from_ints(x: i64, y: i64) -> (r: Point)
        ensures
            r@.x == fint(x as int),
            r@.y == fint(y as int),
    {
        Point { x: Fraction::from_int(x), y: Fraction::from_int(y) }
    }
}

/// An axis-aligned box in layout space; layout geometry is authored in
/// integer units.
#[derive(Clone, Copy, Debug, PartialEq, Eq, Structural)]
pub struct Bounds {
    pub x: i64,
    pub y: i64,
    pub width: i64,
    pub height: i64,
}

/// Strict interior test, as used for the view's bounding box.
pub open spec fn spec_contains(b: Bounds, p: PointV) -> bool {
    &&& flt(fint(b.x as int), p.x)
    &&& flt(p.x, fint(b.x + b.width))
    &&& flt(fint(b.y as int), p.y)
    &&& flt(p.y, fint(b.y + b.height))
}

impl Bounds {
    /// Does the open interior of the box contain the point?
    pub fn contains(&self, point: &Point) -> (r: bool)
        requires
            fwf(point@.x),
            fwf(point@.y),
            point@.x.den < FRAC_DEN_LIMIT,
            point@.y.den < FRAC_DEN_LIMIT,
            -COORD_LIMIT <= self.x <= COORD_LIMIT,
            -COORD_LIMIT <= self.y <= COORD_LIMIT,
            0 <= self.width <= COORD_LIMIT,
            0 <= self.height <= COORD_LIMIT,
        ensures
            r == spec_contains(*self, point@),
    {
        int_lt_frac(self.x, &point.x) && frac_lt_int(&point.x, self.x + self.width)
            && int_lt_frac(self.y, &point.y) && frac_lt_int(&point.y, self.y + self.height)
    }
}

/// A rational-valued box, as produced by mapping integer bounds back to
/// widget space.
#[derive(Clone, Copy, Debug)]
pub struct FracBounds {
    pub x: Fraction,
    pub y: Fraction,
    pub width: Fraction,
    pub height: Fraction,
}

/// Translate by the origin, then scale: a point `p` in widget space maps
/// to `(p - origin) / scale` in layout space, coordinate-wise.
#[derive(Clone, Copy, Debug)]
pub struct Transformation {
    pub origin_x: Fraction,
    pub origin_y: Fraction,
    pub scale_x: Fraction,
    pub scale_y: Fraction,
}

/// Mathematical image of `Transformation`.
pub ghost struct TransV {
    pub origin_x: FracV,
    pub origin_y: FracV,
    pub scale_x: FracV,
    pub scale_y: FracV,
}

impl View for Transformation {
    type V = TransV;

    open spec fn view(&self) -> TransV {
        TransV {
            origin_x: self.origin_x@,
            origin_y: self.origin_y@,
            scale_x: self.scale_x@,
            scale_y: self.scale_y@,
        }
    }
}

/// Forward transformation of one coordinate: widget to layout space.
pub open spec fn spec_forward(p: FracV, origin: FracV, scale: FracV) -> FracV {
    fdiv(fsub(p, origin), scale)
}

/// Reverse transformation of one coordinate: layout to widget space.
pub open spec fn spec_reverse(p: FracV, origin: FracV, scale: FracV) -> FracV {
    fadd(fmul(p, scale), origin)
}

/// Bounds the engine guarantees for the transformations it builds:
/// positive scales and moderate magnitudes, so transformed coordinates
/// stay well inside `i128`.
pub open spec fn twf(t: TransV) -> bool {
    &&& fwf(t.origin_x)
    &&& fwf(t.origin_y)
    &&& t.origin_x.den < 0x400000
    &&& t.origin_y.den < 0x400000
    &&& -0x80_0000_0000_0000 < t.origin_x.num < 0x80_0000_0000_0000
    &&& -0x80_0000_0000_0000 < t.origin_y.num < 0x80_0000_0000_0000
    &&& 0 < t.scale_x.num < 0x400000
    &&& t.scale_x.den < 0x400000
    &&& fwf(t.scale_x)
    &&& 0 < t.scale_y.num < 0x400000
    &&& t.scale_y.den < 0x400000
    &&& fwf(t.scale_y)
}

impl Transformation {
    /// The transformation mapping widget point `p` to layout point
    /// `(p - origin) / scale`, coordinate-wise.
    pub fn forward(&self, p: Point) -> (r: Point)
        requires
            twf(self@),
            small_point(p@),
        ensures
            r@.x == spec_forward(p@.x, self@.origin_x, self@.scale_x),
            r@.y == spec_forward(p@.y, self@.origin_y, self@.scale_y),
            pbounded(r@),
            -0x10_0000_0000_0000_0000_0000_0000 <= r@.x.num <= 0x10_0000_0000_0000_0000_0000_0000,
            -0x10_0000_0000_0000_0000_0000_0000 <= r@.y.num <= 0x10_0000_0000_0000_0000_0000_0000,
    {
        Point {
            x: forward_coord(p.x, self.origin_x, self.scale_x),
            y: forward_coord(p.y, self.origin_y, self.scale_y),
        }
    }

    /// The inverse mapping: layout point `p` to widget point
    /// `p * scale + origin`, coordinate-wise.
    pub fn reverse(&self, p: Point) -> (r: Point)
        requires
            twf(self@),
            small_point(p@),
        ensures
            r@.x == spec_reverse(p@.x, self@.origin_x, self@.scale_x),
            r@.y == spec_reverse(p@.y, self@.origin_y, self@.scale_y),
            pbounded(r@),
    {
        Point {
            x: reverse_coord(p.x, self.origin_x, self.scale_x),
            y: reverse_coord(p.y, self.origin_y, self.scale_y),
        }
    }

    /// Applies `next` after this transformation:
    /// `origin' = origin + scale * next.origin`,
    /// `scale' = scale * next.scale`, coordinate-wise.
    pub fn chain(self, next: Transformation) -> (r: Transformation)
        requires
            twf(self@),
            twf(next@),
        ensures
            r@.origin_x == fadd(fmul(self@.scale_x, next@.origin_x), self@.origin_x),
            r@.origin_y == fadd(fmul(self@.scale_y, next@.origin_y), self@.origin_y),
            r@.scale_x == fmul(self@.scale_x, next@.scale_x),
            r@.scale_y == fmul(self@.scale_y, next@.scale_y),
    {
        Transformation {
            origin_x: chain_origin(self.scale_x, next.origin_x, self.origin_x),
            origin_y: chain_origin(self.scale_y, next.origin_y, self.origin_y),
            scale_x: chain_scale(self.scale_x, next.scale_x),
            scale_y: chain_scale(self.scale_y, next.scale_y),
        }
    }

    /// Maps a box of layout space back to widget space.  The position
    /// maps through [`Transformation::reverse`]; since the mapping is
    /// affine, the extent is the original extent times the scale.
    pub fn reverse_bounds(&self, b: Bounds) -> (r: FracBounds)
        requires
            twf(self@),
            -COORD_LIMIT <= b.x <= COORD_LIMIT,
            -COORD_LIMIT <= b.y <= COORD_LIMIT,
            0 <= b.width <= COORD_LIMIT,
            0 <= b.height <= COORD_LIMIT,
        ensures
            r.x@ == spec_reverse(fint(b.x as int), self@.origin_x, self@.scale_x),
            r.y@ == spec_reverse(fint(b.y as int), self@.origin_y, self@.scale_y),
            r.width@ == fmul(fint(b.width as int), self@.scale_x),
            r.height@ == fmul(fint(b.height as int), self@.scale_y),
    {
        proof {
            lemma_mul_bounds(b.width as int, self@.scale_x.num, COORD_LIMIT as int, 0x400000);
            lemma_mul_bounds(b.height as int, self@.scale_y.num, COORD_LIMIT as int, 0x400000);
        }
        FracBounds {
            x: reverse_coord(Fraction::from_int(b.x), self.origin_x, self.scale_x),
            y: reverse_coord(Fraction::from_int(b.y), self.origin_y, self.scale_y),
            width: Fraction {
                num: (b.width as i128) * self.scale_x.num,
                den: self.scale_x.den,
            },
            height: Fraction {
                num: (b.height as i128) * self.scale_y.num,
                den: self.scale_y.den,
            },
        }
    }
}

/// One coordinate of the forward transformation.
fn forward_coord(p: Fraction, origin: Fraction, scale: Fraction) -> (r: Fraction)
    requires
        fwf(p@),
        fwf(origin@),
        fwf(scale@),
        0 < scale@.num < 0x400000,
        scale@.den < 0x400000,
        p@.den < 0x400000,
        -0x400000 < p@.num < 0x400000,
        origin@.den < 0x400000,
        -0x80_0000_0000_0000 < origin@.num < 0x80_0000_0000_0000,
    ensures
        r@ == spec_forward(p@, origin@, scale@),
        fbounded(r@),
        -0x10_0000_0000_0000_0000_0000_0000 <= r@.num <= 0x10_0000_0000_0000_0000_0000_0000,
{
    proof {
        lemma_mul_bounds(p@.num, origin@.den, 0x400000, 0x400000);
        lemma_mul_bounds(origin@.num, p@.den, 0x80_0000_0000_0000, 0x400000);
        lemma_mul_bounds(p@.den, origin@.den, 0x400000, 0x400000);
        lemma_mul_bounds(
            p@.num * origin@.den - origin@.num * p@.den,
            scale@.den,
            0x4000_0000_0000_0000_0000,
            0x400000,
        );
        lemma_mul_bounds(p@.den * origin@.den, scale@.num, 0x1000_0000_0000, 0x400000);
    }
    let diff_num: i128 = p.num * origin.den - origin.num * p.den;
    let diff_den: i128 = p.den * origin.den;
    Fraction { num: diff_num * scale.den, den: diff_den * scale.num }
}

/// One coordinate of the reverse transformation.
fn reverse_coord(p: Fraction, origin: Fraction, scale: Fraction) -> (r: Fraction)
    requires
        fwf(p@),
        fwf(origin@),
        fwf(scale@),
        0 < scale@.num < 0x400000,
        scale@.den < 0x400000,
        p@.den < 0x400000,
        -0x400000 < p@.num < 0x400000,
        origin@.den < 0x400000,
        -0x80_0000_0000_0000 < origin@.num < 0x80_0000_0000_0000,
    ensures
        r@ == spec_reverse(p@, origin@, scale@),
        fbounded(r@),
{
    proof {
        lemma_mul_bounds(p@.num, scale@.num, 0x400000, 0x400000);
        lemma_mul_bounds(p@.den, scale@.den, 0x400000, 0x400000);
        lemma_mul_bounds(p@.num * scale@.num, origin@.den, 0x1000_0000_0000, 0x400000);
        lemma_mul_bounds(
            origin@.num,
            p@.den * scale@.den,
            0x80_0000_0000_0000,
            0x1000_0000_0000,
        );
        lemma_mul_bounds(p@.den * scale@.den, origin@.den, 0x1000_0000_0000, 0x400000);
    }
    let prod_num: i128 = p.num * scale.num;
    let prod_den: i128 = p.den * scale.den;
    Fraction { num: prod_num * origin.den + origin.num * prod_den, den: prod_den * origin.den }
}

/// `origin + scale * next_origin` for transformation chaining.
fn chain_origin(scale: Fraction, next_origin: Fraction, origin: Fraction) -> (r: Fraction)
    requires
        fwf(scale@),
        fwf(next_origin@),
        fwf(origin@),
        0 < scale@.num < 0x400000,
        scale@.den < 0x400000,
        next_origin@.den < 0x400000,
        -0x80_0000_0000_0000 < next_origin@.num < 0x80_0000_0000_0000,
        origin@.den < 0x400000,
        -0x80_0000_0000_0000 < origin@.num < 0x80_0000_0000_0000,
    ensures
        r@ == fadd(fmul(scale@, next_origin@), origin@),
        fwf(r@),
{
    proof {
        lemma_mul_bounds(scale@.num, next_origin@.num, 0x400000, 0x80_0000_0000_0000);
        lemma_mul_bounds(scale@.den, next_origin@.den, 0x400000, 0x400000);
        lemma_mul_bounds(
            scale@.num * next_origin@.num,
            origin@.den,
            0x2_0000_0000_0000_0000_0000,
            0x400000,
        );
        lemma_mul_bounds(
            origin@.num,
            scale@.den * next_origin@.den,
            0x80_0000_0000_0000,
            0x10_0000_0000_0000,
        );
        lemma_mul_bounds(
            scale@.den * next_origin@.den,
            origin@.den,
            0x10_0000_0000_0000,
            0x400000,
        );
    }
    let prod_num: i128 = scale.num * next_origin.num;
    let prod_den: i128 = scale.den * next_origin.den;
    Fraction { num: prod_num * origin.den + origin.num * prod_den, den: prod_den * origin.den }
}

/// `scale * next_scale` for transformation chaining.
fn chain_scale(scale: Fraction, next_scale: Fraction) -> (r: Fraction)
    requires
        fwf(scale@),
        fwf(next_scale@),
        0 < scale@.num < 0x400000,
        scale@.den < 0x400000,
        0 < next_scale@.num < 0x400000,
        next_scale@.den < 0x400000,
    ensures
        r@ == fmul(scale@, next_scale@),
        fwf(r@),
{
    proof {
        lemma_mul_bounds(scale@.num, next_scale@.num, 0x400000, 0x400000);
        lemma_mul_bounds(scale@.den, next_scale@.den, 0x400000, 0x400000);
    }
    Fraction { num: scale.num * next_scale.num, den: scale.den * next_scale.den }
}

/// Transform round trip, one coordinate: reversing a forwarded
/// coordinate yields the original value exactly, for any non-degenerate
/// scale.
pub proof fn lemma_round_trip_coord(p: FracV, origin: FracV, scale: FracV)
    requires
        fwf(p),
        fwf(origin),
        fwf(scale),
        scale.num != 0,
    ensures
        feq(spec_reverse(spec_forward(p, origin, scale), origin, scale), p),
{
    let a = p.num;
    let b = p.den;
    let c = origin.num;
    let d = origin.den;
    let u = scale.num;
    let v = scale.den;
    let m = a * d - c * b;
    let w = u * v;
    let f = spec_forward(p, origin, scale);
    let r = spec_reverse(f, origin, scale);
    assert(m * d + c * (b * d) == a * (d * d)) by (nonlinear_arith)
        requires
            m == a * d - c * b,
    ;
    let sign_w = if scale.num >= 0 { w } else { -w };
    if scale.num >= 0 {
        assert(f.num == m * v && f.den == (b * d) * u);
        assert(r.num == f.num * u * d + c * (f.den * v) && r.den == f.den * v * d);
        let x = m * d;
        let y = c * (b * d);
        assert((m * v) * u * d == w * x) by (nonlinear_arith)
            requires
                w == u * v,
                x == m * d,
        ;
        assert(c * (((b * d) * u) * v) == w * y) by (nonlinear_arith)
            requires
                w == u * v,
                y == c * (b * d),
        ;
        assert(w * x + w * y == w * (x + y)) by (nonlinear_arith);
        assert((m * v) * u * d + c * (((b * d) * u) * v) == w * (m * d + c * (b * d)));
        assert((((b * d) * u) * v) * d == w * (b * (d * d))) by (nonlinear_arith)
            requires
                w == u * v,
        ;
        assert(r.num == sign_w * (a * (d * d)));
        assert(r.den == sign_w * (b * (d * d)));
    } else {
        assert(f.num == -(m * v) && f.den == -((b * d) * u));
        assert(r.num == f.num * u * d + c * (f.den * v) && r.den == f.den * v * d);
        let x = m * d;
        let y = c * (b * d);
        assert((-(m * v)) * u * d == (-w) * x) by (nonlinear_arith)
            requires
                w == u * v,
                x == m * d,
        ;
        assert(c * ((-((b * d) * u)) * v) == (-w) * y) by (nonlinear_arith)
            requires
                w == u * v,
                y == c * (b * d),
        ;
        assert((-w) * x + (-w) * y == (-w) * (x + y)) by (nonlinear_arith);
        assert((-(m * v)) * u * d + c * ((-((b * d) * u)) * v) == (-w) * (m * d + c * (b * d)));
        assert((-((b * d) * u)) * v * d == (-w) * (b * (d * d))) by (nonlinear_arith)
            requires
                w == u * v,
        ;
        assert(r.num == sign_w * (a * (d * d)));
        assert(r.den == sign_w * (b * (d * d)));
    }
    assert((sign_w * (a * (d * d))) * b == a * (sign_w * (b * (d * d)))) by (nonlinear_arith);
    assert(r.num * p.den == p.num * r.den);
}

/// Transform round trip: `reverse(forward(p))` denotes the same point as
/// `p`, in both coordinates, for every transformation with non-zero
/// scales.
pub proof fn lemma_transform_round_trip(t: TransV, p: PointV)
    requires
        fwf(p.x),
        fwf(p.y),
        fwf(t.origin_x),
        fwf(t.origin_y),
        fwf(t.scale_x),
        fwf(t.scale_y),
        t.scale_x.num != 0,
        t.scale_y.num != 0,
    ensures
        feq(
            spec_reverse(spec_forward(p.x, t.origin_x, t.scale_x), t.origin_x, t.scale_x),
            p.x,
        ),
        feq(
            spec_reverse(spec_forward(p.y, t.origin_y, t.scale_y), t.origin_y, t.scale_y),
            p.y,
        ),
{
    lemma_round_trip_coord(p.x, t.origin_x, t.scale_x);
    lemma_round_trip_coord(p.y, t.origin_y, t.scale_y);
}

} // verus!
