use lipuma::fixed::{isqrt_u64, Fx, SCALE};
use lipuma::geometry::{Affine, FxPoint, FxRect};

fn fx(raw: i64) -> Fx {
    Fx::new(raw)
}

#[test]
fn fixed_products_floor_toward_negative_infinity() {
    // 1.5 * 2 = 3 exactly.
    assert_eq!(fx(3 * SCALE / 2).times(fx(2 * SCALE)).raw, 3 * SCALE);
    // -1.5 * 0.5 = -0.75 exactly.
    assert_eq!(fx(-3 * SCALE / 2).times(fx(SCALE / 2)).raw, -3 * SCALE / 4);
    // A truncated product rounds down, not toward zero.
    assert_eq!(fx(-1).times(fx(1)).raw, -1);
}

#[test]
fn fixed_quotients_floor() {
    // 1 / 3 rounds down to 21845 raw steps.
    assert_eq!(fx(SCALE).over(fx(3 * SCALE)).raw, 21845);
    // -1 / 3 rounds down to -21846.
    assert_eq!(fx(-SCALE).over(fx(3 * SCALE)).raw, -21846);
}

#[test]
fn floor_units_of_negative_values() {
    assert_eq!(fx(-1).floor_units(), -1);
    assert_eq!(fx(-SCALE).floor_units(), -1);
    assert_eq!(fx(SCALE + 1).floor_units(), 1);
}

#[test]
fn integer_square_roots_are_exact_floors() {
    assert_eq!(isqrt_u64(0), 0);
    assert_eq!(isqrt_u64(1), 1);
    assert_eq!(isqrt_u64(3), 1);
    assert_eq!(isqrt_u64(4), 2);
    assert_eq!(isqrt_u64(15), 3);
    assert_eq!(isqrt_u64(16), 4);
    assert_eq!(isqrt_u64(1_000_000_000_000), 1_000_000);
    assert_eq!(isqrt_u64(u64::MAX), 0xFFFF_FFFF);
}

#[test]
fn rectangles_from_any_corner_pair_are_ordered() {
    let r = FxRect::from_points(
        FxPoint::new(fx(5 * SCALE), fx(-2 * SCALE)),
        FxPoint::new(fx(-1 * SCALE), fx(7 * SCALE)),
    );
    assert_eq!(r.x0.raw, -1 * SCALE);
    assert_eq!(r.y0.raw, -2 * SCALE);
    assert_eq!(r.x1.raw, 5 * SCALE);
    assert_eq!(r.y1.raw, 7 * SCALE);
}

#[test]
fn overlap_is_strict_but_containment_is_closed() {
    let a = FxRect::from_points(FxPoint::new(fx(0), fx(0)), FxPoint::new(fx(100), fx(100)));
    let touching = FxRect::from_points(
        FxPoint::new(fx(100), fx(0)),
        FxPoint::new(fx(200), fx(100)),
    );
    assert!(!a.intersects(&touching));
    assert!(a.contains_point(&FxPoint::new(fx(100), fx(100))));
    assert!(a.contains_rect(&a));
}

#[test]
fn union_covers_both_inputs() {
    let a = FxRect::from_points(FxPoint::new(fx(0), fx(0)), FxPoint::new(fx(10), fx(10)));
    let b = FxRect::from_points(FxPoint::new(fx(-5), fx(3)), FxPoint::new(fx(4), fx(20)));
    let u = a.union(b);
    assert!(u.contains_rect(&a));
    assert!(u.contains_rect(&b));
    assert_eq!(u.x0.raw, -5);
    assert_eq!(u.y1.raw, 20);
}

#[test]
fn translation_moves_points_exactly() {
    let t = Affine::translate(FxPoint::new(Fx::from_units(3), Fx::from_units(-4)));
    let img = t.apply(&FxPoint::new(Fx::from_units(10), Fx::from_units(10)));
    assert_eq!(img.x.raw, 13 * SCALE);
    assert_eq!(img.y.raw, 6 * SCALE);
}

#[test]
fn identity_inverts_to_identity() {
    let inv = Affine::identity().try_inverse().expect("the identity is invertible");
    assert_eq!(inv, Affine::identity());
}

#[test]
fn singular_maps_have_no_inverse() {
    assert!(Affine::scale(Fx::new(0)).try_inverse().is_none());
}

#[test]
fn scaling_composes_exactly() {
    let double = Affine::scale(Fx::from_units(2));
    let m = double.try_compose(&double).expect("coefficients stay in range");
    let img = m.apply(&FxPoint::new(Fx::from_units(1), Fx::from_units(1)));
    assert_eq!(img.x.raw, 4 * SCALE);
    assert_eq!(img.y.raw, 4 * SCALE);
}

#[test]
fn bounding_boxes_follow_rotations() {
    // A quarter turn maps the unit box to the left of the y axis.
    let quarter = Affine::rotate_cs(Fx::new(0), Fx::new(SCALE));
    let unit = FxRect::from_points(
        FxPoint::new(fx(0), fx(0)),
        FxPoint::new(Fx::from_units(1), Fx::from_units(1)),
    );
    let bb = quarter.transform_rect_bbox(&unit);
    assert_eq!(bb.x0.raw, -SCALE);
    assert_eq!(bb.x1.raw, 0);
    assert_eq!(bb.y0.raw, 0);
    assert_eq!(bb.y1.raw, SCALE);
}
