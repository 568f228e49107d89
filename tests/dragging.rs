use spiro::dragging::{CursorIcon, DragFinished, Dragged, Hovered, Pointer};
use spiro::geometry::Point;
use spiro::registry::Gears;
use spiro::spiro::{FixedGearBundle, RotatingGearBundle};

/// Two overlapping fixed gears of radius 150 at x = 0 and x = 200, each with a
/// rotating gear.
fn scene() -> Gears {
    let mut g = Gears::new();
    let f1 = g.spawn_fixed(FixedGearBundle::default()).unwrap();
    g.spawn_rotating(f1, RotatingGearBundle::default()).unwrap();
    let f2 = g.spawn_fixed(FixedGearBundle::new(Point::new(200_000, 0))).unwrap();
    g.spawn_rotating(f2, RotatingGearBundle::default()).unwrap();
    g
}

#[test]
fn first_hit_wins_among_overlapping_gears() {
    let g = scene();
    let mut p = Pointer::new();
    p.hovered(Some(Point::new(100_000, 0)), &g);
    assert_eq!(p.hovered, Some(Hovered { entity: 0, offset: Point::new(-100_000, 0) }));
    p.hovered(Some(Point::new(250_000, 10)), &g);
    assert_eq!(p.hovered, Some(Hovered { entity: 2, offset: Point::new(-50_000, -10) }));
}

#[test]
fn no_hit_and_no_cursor_clear_hover() {
    let g = scene();
    let mut p = Pointer::new();
    p.hovered(Some(Point::new(100_000, 0)), &g);
    p.hovered(Some(Point::new(0, 150_000)), &g);
    assert_eq!(p.hovered, None);
    p.hovered(Some(Point::new(100_000, 0)), &g);
    p.hovered(None, &g);
    assert_eq!(p.hovered, None);
}

#[test]
fn non_draggable_gear_is_not_hovered() {
    let mut g = scene();
    g.fixed[0].gear.draggable = false;
    let mut p = Pointer::new();
    p.hovered(Some(Point::new(100_000, 0)), &g);
    assert_eq!(p.hovered.map(|h| h.entity), Some(2));
}

#[test]
fn press_without_hover_starts_nothing() {
    let mut g = scene();
    let mut p = Pointer::new();
    p.start_drag(&mut g);
    assert_eq!(p.dragged, None);
    assert!(!g.fixed[0].children[0].gear.paused);
}

#[test]
fn drag_follows_cursor_with_grab_offset() {
    let mut g = scene();
    let mut p = Pointer::new();
    p.hovered(Some(Point::new(10_000, 20_000)), &g);
    p.start_drag(&mut g);
    assert_eq!(p.dragged, Some(Dragged { entity: 0, offset: Point::new(-10_000, -20_000) }));
    assert!(g.fixed[0].children[0].gear.paused);
    assert!(!g.fixed[1].children[0].gear.paused);
    p.drag(Some(Point::new(-500_000, 300_000)), &mut g);
    assert_eq!(g.fixed[0].gear.position, Point::new(-510_000, 280_000));
    p.drag(None, &mut g);
    assert_eq!(g.fixed[0].gear.position, Point::new(-510_000, 280_000));
}

#[test]
fn drag_end_far_from_others_does_not_snap() {
    let mut g = scene();
    let mut p = Pointer::new();
    p.hovered(Some(Point::new(0, 0)), &g);
    p.start_drag(&mut g);
    p.drag(Some(Point::new(200_000, 50_000)), &mut g);
    let done = p.end_drag(&mut g);
    assert_eq!(done, Some(DragFinished { entity: 0 }));
    assert_eq!(g.fixed[0].gear.position, Point::new(200_000, 50_000));
    assert!(!g.fixed[0].children[0].gear.paused);
    assert_eq!(p.dragged, None);
}

#[test]
fn drag_end_near_another_snaps_onto_it() {
    let mut g = scene();
    let mut p = Pointer::new();
    p.hovered(Some(Point::new(0, 0)), &g);
    p.start_drag(&mut g);
    p.drag(Some(Point::new(205_000, 3_000)), &mut g);
    p.end_drag(&mut g);
    assert_eq!(g.fixed[0].gear.position, Point::new(200_000, 0));
    assert_eq!(g.fixed[1].gear.position, Point::new(200_000, 0));
}

#[test]
fn snap_threshold_is_strict() {
    let mut g = scene();
    g.move_fixed(0, Point::new(210_000, 0));
    g.drag_end(0);
    assert_eq!(g.fixed[0].gear.position, Point::new(210_000, 0));
    g.move_fixed(0, Point::new(209_999, 0));
    g.drag_end(0);
    assert_eq!(g.fixed[0].gear.position, Point::new(200_000, 0));
}

#[test]
fn snap_picks_nearest_then_earliest() {
    let mut g = Gears::new();
    let d = g.spawn_fixed(FixedGearBundle::new(Point::new(0, 0))).unwrap();
    g.spawn_fixed(FixedGearBundle::new(Point::new(5_000, 0))).unwrap();
    g.spawn_fixed(FixedGearBundle::new(Point::new(-5_000, 0))).unwrap();
    g.spawn_fixed(FixedGearBundle::new(Point::new(0, 3_000))).unwrap();
    g.drag_end(d);
    assert_eq!(g.fixed[0].gear.position, Point::new(0, 3_000));
    g.despawn_fixed(3);
    g.move_fixed(d, Point::new(0, 0));
    g.drag_end(d);
    assert_eq!(g.fixed[0].gear.position, Point::new(5_000, 0));
}

#[test]
fn end_without_drag_reports_nothing() {
    let mut g = scene();
    let mut p = Pointer::new();
    assert_eq!(p.end_drag(&mut g), None);
}

#[test]
fn drag_end_resumes_even_user_paused_gears() {
    let mut g = scene();
    g.set_paused(0, 1, true);
    g.drag_start(0);
    g.drag_end(0);
    assert!(!g.fixed[0].children[0].gear.paused);
}

#[test]
fn cursor_icon_follows_state() {
    let mut g = scene();
    let mut p = Pointer::new();
    assert_eq!(p.cursor(), None);
    p.hovered(Some(Point::new(0, 0)), &g);
    assert_eq!(p.cursor(), Some(CursorIcon::Grab));
    p.start_drag(&mut g);
    assert_eq!(p.cursor(), Some(CursorIcon::Grabbing));
    p.end_drag(&mut g);
    assert_eq!(p.cursor(), Some(CursorIcon::Grab));
}
