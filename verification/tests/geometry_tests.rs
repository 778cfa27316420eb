//! Exact-geometry helpers: bounds tests, chaining, box mapping.

use squeekboard::geometry::{Bounds, Fraction, Point, Transformation};

fn frac(num: i64, den: i64) -> Fraction {
    Fraction { num: num as i128, den: den as i128 }
}

fn point(x: i64, y: i64) -> Point {
    Point { x: Fraction::from_int(x), y: Fraction::from_int(y) }
}

#[test]
fn bounds_interior_is_open() {
    let b = Bounds { x: 0, y: 0, width: 10, height: 10 };
    assert!(b.contains(&point(5, 5)));
    assert!(!b.contains(&point(0, 5)));
    assert!(!b.contains(&point(10, 5)));
    assert!(!b.contains(&point(5, 10)));
    // A point strictly inside by a fraction of a unit counts.
    assert!(b.contains(&Point { x: frac(1, 2), y: frac(19, 2) }));
}

#[test]
fn chain_composes_scale_and_shift() {
    let outer = Transformation {
        origin_x: Fraction::from_int(10),
        origin_y: Fraction::from_int(20),
        scale_x: Fraction::from_int(2),
        scale_y: Fraction::from_int(3),
    };
    let inner = Transformation {
        origin_x: Fraction::from_int(1),
        origin_y: Fraction::from_int(1),
        scale_x: Fraction::from_int(1),
        scale_y: Fraction::from_int(1),
    };
    let chained = outer.chain(inner);
    assert!(chained.origin_x.same_value(&Fraction::from_int(12)));
    assert!(chained.origin_y.same_value(&Fraction::from_int(23)));
    assert!(chained.scale_x.same_value(&Fraction::from_int(2)));
    assert!(chained.scale_y.same_value(&Fraction::from_int(3)));
}

#[test]
fn reverse_bounds_scales_extent() {
    let t = Transformation {
        origin_x: Fraction::from_int(100),
        origin_y: Fraction::from_int(200),
        scale_x: Fraction::from_int(2),
        scale_y: Fraction::from_int(3),
    };
    let fb = t.reverse_bounds(Bounds { x: 5, y: 7, width: 10, height: 20 });
    assert!(fb.x.same_value(&Fraction::from_int(110)));
    assert!(fb.y.same_value(&Fraction::from_int(221)));
    assert!(fb.width.same_value(&Fraction::from_int(20)));
    assert!(fb.height.same_value(&Fraction::from_int(60)));
}

#[test]
fn forward_divides_by_scale() {
    let t = Transformation {
        origin_x: Fraction::from_int(10),
        origin_y: Fraction::from_int(0),
        scale_x: Fraction::from_int(4),
        scale_y: Fraction::from_int(4),
    };
    let p = t.forward(point(11, 2));
    assert!(p.x.same_value(&frac(1, 4)));
    assert!(p.y.same_value(&frac(1, 2)));
}
