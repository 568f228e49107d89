use spiro::engine::{placement_for, Placement};
use spiro::geometry::{Point, Roll};
use spiro::registry::Gears;
use spiro::spiro::GearColor;

const TICK_US: i64 = 16_667;

fn place(fixed: u64, gear: u64, offset: Point, pen_offset: Point) -> Placement {
    Placement { fixed, gear, offset, pen_offset }
}

#[test]
fn rotate_gears_advances_rotation_and_roll() {
    let mut g = Gears::setup();
    g.rotate_gears(TICK_US);
    let c = &g.fixed[0].children[0].gear;
    assert_eq!(c.rotation, 133_336);
    assert_eq!(c.roll, Roll { spin: 182_225, orbit_angle: 48_889, orbit_radius: 95_000 });
    assert!(c.line.0.is_empty());
}

#[test]
fn tick_places_gear_and_appends_pen_position() {
    let mut g = Gears::setup();
    g.fixed[0].gear.position = Point::new(5, 7);
    g.rotate_gears(TICK_US);
    let ps = vec![place(0, 1, Point::new(95_000, 0), Point::new(0, 40_000))];
    g.place_gears(&ps);
    let c = &g.fixed[0].children[0].gear;
    assert_eq!(c.position, Point::new(95_005, 7));
    assert_eq!(c.pen_pos.0, Point::new(95_005, 40_007));
    g.update_line();
    let c = &g.fixed[0].children[0].gear;
    assert_eq!(c.line.0, vec![Point::new(95_005, 40_007)]);
    g.update_line();
    assert_eq!(g.fixed[0].children[0].gear.line.0.len(), 2);
}

#[test]
fn paused_gear_is_unchanged_by_a_tick() {
    let mut g = Gears::setup();
    g.fixed[0].children[0].gear.line.0.push(Point::new(1, 1));
    g.set_paused(0, 1, true);
    let before = g.fixed[0].children[0].gear.clone();
    g.rotate_gears(TICK_US);
    g.place_gears(&vec![place(0, 1, Point::new(9, 9), Point::new(9, 9))]);
    g.update_line();
    let c = &g.fixed[0].children[0].gear;
    assert_eq!(c.rotation, before.rotation);
    assert_eq!(c.position, before.position);
    assert_eq!(c.pen_pos, before.pen_pos);
    assert_eq!(c.line.0, before.line.0);
}

#[test]
fn zero_fixed_radius_skips_children() {
    let mut g = Gears::setup();
    g.set_fixed_params(0, 0, GearColor(spiro::spiro::Rgba::black()));
    g.rotate_gears(TICK_US);
    assert_eq!(g.fixed[0].children[0].gear.rotation, 0);
}

#[test]
fn negative_speed_turns_backwards() {
    let mut g = Gears::setup();
    g.fixed[0].children[0].gear.speed = -3_000_000;
    g.rotate_gears(1_000_000);
    assert_eq!(g.fixed[0].children[0].gear.rotation, -3_000_000);
}

#[test]
fn gear_without_placement_stays() {
    let mut g = Gears::setup();
    g.rotate_gears(TICK_US);
    g.place_gears(&vec![place(0, 7, Point::new(1, 1), Point::new(1, 1))]);
    let c = &g.fixed[0].children[0].gear;
    assert_eq!(c.position, Point::new(0, 0));
    assert_eq!(c.pen_pos.0, Point::new(0, 0));
}

#[test]
fn first_placement_wins() {
    let ps = vec![
        place(0, 2, Point::new(1, 1), Point::new(0, 0)),
        place(0, 1, Point::new(2, 2), Point::new(0, 0)),
        place(0, 1, Point::new(3, 3), Point::new(0, 0)),
    ];
    assert_eq!(placement_for(&ps, 0, 1), Some(ps[1]));
    assert_eq!(placement_for(&ps, 1, 1), None);
}

#[test]
fn placement_out_of_range_is_ignored() {
    let mut g = Gears::setup();
    g.fixed[0].gear.position = Point::new(i64::MAX, 0);
    g.place_gears(&vec![place(0, 1, Point::new(1, 0), Point::new(0, 0))]);
    assert_eq!(g.fixed[0].children[0].gear.position, Point::new(0, 0));
}
