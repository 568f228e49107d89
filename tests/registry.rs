use spiro::geometry::Point;
use spiro::registry::{GearParams, Gears};
use spiro::spiro::{FixedGearBundle, GearColor, LineColor, Rgba, RotatingGearBundle};

fn two_spirographs() -> (Gears, u64, u64, u64, u64) {
    let mut g = Gears::new();
    let f1 = g.spawn_fixed(FixedGearBundle::default()).unwrap();
    let a = g.spawn_rotating(f1, RotatingGearBundle::default()).unwrap();
    let f2 = g.spawn_fixed(FixedGearBundle::new(Point::new(200_000, 0))).unwrap();
    let b = g.spawn_rotating(f2, RotatingGearBundle::default()).unwrap();
    (g, f1, a, f2, b)
}

#[test]
fn setup_holds_one_default_spirograph() {
    let g = Gears::setup();
    assert_eq!(g.fixed.len(), 1);
    assert_eq!(g.fixed[0].gear, FixedGearBundle::default());
    assert_eq!(g.fixed[0].gear.radius, 150_000);
    assert_eq!(g.fixed[0].children.len(), 1);
    let c = &g.fixed[0].children[0].gear;
    assert_eq!(c.radius, 55_000);
    assert_eq!(c.speed, 8_000_000);
    assert_eq!(c.pen, 40_000);
    assert!(c.line.0.is_empty());
    assert!(!c.paused);
}

#[test]
fn spawned_ids_are_fresh() {
    let (g, f1, a, f2, b) = two_spirographs();
    assert_eq!((f1, a, f2, b), (0, 1, 2, 3));
    assert_eq!(g.next_id, 4);
}

#[test]
fn spawn_rotating_on_missing_fixed_gear_is_none() {
    let (mut g, ..) = two_spirographs();
    assert_eq!(g.spawn_rotating(99, RotatingGearBundle::default()), None);
    assert_eq!(g.next_id, 4);
}

#[test]
fn spawn_fails_once_ids_run_out() {
    let mut g = Gears::new();
    g.next_id = u64::MAX;
    assert_eq!(g.spawn_fixed(FixedGearBundle::default()), None);
    assert!(g.fixed.is_empty());
}

#[test]
fn despawn_fixed_removes_its_rotating_gears() {
    let (mut g, f1, _a, f2, b) = two_spirographs();
    g.despawn_fixed(f1);
    assert_eq!(g.fixed.len(), 1);
    assert_eq!(g.fixed[0].id, f2);
    assert_eq!(g.fixed[0].children.len(), 1);
    assert_eq!(g.fixed[0].children[0].id, b);
    assert!(g.fixed.iter().all(|f| f.id != f1));
}

#[test]
fn despawn_unknown_fixed_changes_nothing() {
    let (mut g, ..) = two_spirographs();
    g.despawn_fixed(77);
    assert_eq!(g.fixed.len(), 2);
}

#[test]
fn despawn_rotating_keeps_parent_and_others() {
    let (mut g, f1, a, _f2, _b) = two_spirographs();
    let c = g.spawn_rotating(f1, RotatingGearBundle::default()).unwrap();
    g.despawn_rotating(f1, a);
    assert_eq!(g.fixed[0].children.len(), 1);
    assert_eq!(g.fixed[0].children[0].id, c);
    assert_eq!(g.fixed[1].children.len(), 1);
    assert_eq!(g.fixed[0].gear, FixedGearBundle::default());
}

#[test]
fn clear_line_empties_one_trace_only() {
    let (mut g, f1, a, _f2, _b) = two_spirographs();
    for f in g.fixed.iter_mut() {
        for c in f.children.iter_mut() {
            c.gear.line.0.push(Point::new(1, 2));
        }
    }
    g.fixed[0].children[0].gear.rotation = 12;
    g.clear_line(f1, a);
    let c = &g.fixed[0].children[0].gear;
    assert!(c.line.0.is_empty());
    assert_eq!(c.rotation, 12);
    assert_eq!(c.speed, 8_000_000);
    assert_eq!(g.fixed[1].children[0].gear.line.0, vec![Point::new(1, 2)]);
}

#[test]
fn clear_all_empties_every_trace() {
    let (mut g, ..) = two_spirographs();
    for f in g.fixed.iter_mut() {
        for c in f.children.iter_mut() {
            c.gear.line.0.push(Point::new(1, 2));
        }
    }
    g.clear_all();
    assert!(g.fixed.iter().all(|f| f.children.iter().all(|c| c.gear.line.0.is_empty())));
}

#[test]
fn set_paused_touches_one_gear() {
    let (mut g, _f1, _a, f2, b) = two_spirographs();
    g.set_paused(f2, b, true);
    assert!(g.fixed[1].children[0].gear.paused);
    assert!(!g.fixed[0].children[0].gear.paused);
    g.set_paused(f2, b, false);
    assert!(!g.fixed[1].children[0].gear.paused);
}

#[test]
fn set_params_edits_one_gear() {
    let (mut g, f1, a, _f2, _b) = two_spirographs();
    let red = Rgba::rainbow(0);
    let params = GearParams {
        speed: 10_000,
        radius: 1_000,
        pen: 128_000,
        line_color: LineColor(red),
        gear_color: GearColor(red),
    };
    g.set_gear_params(f1, a, params);
    let c = &g.fixed[0].children[0].gear;
    assert_eq!((c.speed, c.radius, c.pen), (10_000, 1_000, 128_000));
    assert_eq!(c.line_color, LineColor(red));
    assert_eq!(g.fixed[1].children[0].gear.speed, 8_000_000);
    g.set_fixed_params(f1, 64_000, GearColor(red));
    assert_eq!(g.fixed[0].gear.radius, 64_000);
    assert_eq!(g.fixed[1].gear.radius, 150_000);
}
