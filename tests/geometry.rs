use spiro::geometry::{advance, Point, Roll};

#[test]
fn advance_at_zero_angle_puts_center_on_the_x_axis() {
    let r = advance(0, 150_000, 55_000).unwrap();
    assert_eq!(r, Roll { spin: 0, orbit_angle: 0, orbit_radius: 95_000 });
}

#[test]
fn advance_is_deterministic() {
    let a = advance(1_234_567, 150_000, 55_000);
    let b = advance(1_234_567, 150_000, 55_000);
    assert_eq!(a, b);
}

#[test]
fn advance_rolls_by_radius_ratio() {
    let r = advance(1_000_000, 100_000, 50_000).unwrap();
    assert_eq!(r, Roll { spin: 1_500_000, orbit_angle: 500_000, orbit_radius: 50_000 });
}

#[test]
fn advance_rounds_toward_zero_for_negative_angles() {
    let r = advance(-7, 2, 1).unwrap();
    assert_eq!(r.orbit_angle, -3);
    assert_eq!(r.spin, -10);
    assert_eq!(r.orbit_radius, 1);
}

#[test]
fn advance_with_zero_fixed_radius_is_none() {
    assert_eq!(advance(5, 0, 55_000), None);
}

#[test]
fn advance_out_of_range_is_none() {
    assert_eq!(advance(i64::MAX, 1, 2), None);
    assert_eq!(advance(0, i64::MIN, 1), None);
}

#[test]
fn equal_radii_keep_center_on_fixed_center() {
    for a in [-3_000_000i64, -1, 0, 1, 777_777, 6_283_185] {
        let r = advance(a, 42_000, 42_000).unwrap();
        assert_eq!(r.orbit_radius, 0);
        assert_eq!(r.orbit_angle, a);
        assert_eq!(r.spin, 2 * a);
    }
}

#[test]
fn dist_sq_below_is_strict() {
    let a = Point::new(0, 0);
    assert_eq!(a.dist_sq_below(Point::new(3, 4), 6), Some(25));
    assert_eq!(a.dist_sq_below(Point::new(3, 4), 5), None);
    assert_eq!(a.dist_sq_below(Point::new(0, 0), 0), None);
    assert_eq!(a.dist_sq_below(Point::new(i64::MAX, 0), 10), None);
}

#[test]
fn checked_point_arithmetic() {
    let a = Point::new(1, -2);
    assert_eq!(a.checked_add(Point::new(10, 20)), Some(Point::new(11, 18)));
    assert_eq!(a.checked_sub(Point::new(10, 20)), Some(Point::new(-9, -22)));
    assert_eq!(Point::new(i64::MAX, 0).checked_add(Point::new(1, 0)), None);
    assert_eq!(Point::new(i64::MIN, 0).checked_sub(Point::new(1, 0)), None);
}
