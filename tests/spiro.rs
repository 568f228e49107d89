use spiro::geometry::Point;
use spiro::spiro::{
    draw_line, FixedGearBundle, Line, LineColor, Rgba, RotatingGearBundle, Settings, Stroke,
};
use spiro::ui::input;

#[test]
fn rainbow_palette_ends() {
    assert_eq!(Rgba::rainbow(0), Rgba::rgb(0xdc, 0x26, 0x26));
    assert_eq!(Rgba::rainbow(16), Rgba::rgb(0xe1, 0x1d, 0x48));
}

#[test]
fn black_line_draws_as_rainbow_gradient() {
    let line = Line((0..80).map(|i| Point::new(i, 0)).collect());
    match draw_line(&line, LineColor(Rgba::black())) {
        Stroke::Gradient(ix) => {
            assert_eq!(ix.len(), 80);
            assert_eq!(&ix[0..9], &[0, 0, 0, 0, 1, 1, 1, 1, 2]);
            assert_eq!(ix[67], 16);
            assert_eq!(ix[68], 0);
        }
        Stroke::Solid(_) => panic!("expected a gradient"),
    }
}

#[test]
fn colored_line_draws_solid() {
    let line = Line(vec![Point::new(1, 1)]);
    let c = Rgba::rainbow(3);
    match draw_line(&line, LineColor(c)) {
        Stroke::Solid(s) => assert_eq!(s, c),
        Stroke::Gradient(_) => panic!("expected a solid stroke"),
    }
}

#[test]
fn empty_black_line_has_empty_gradient() {
    match draw_line(&Line(Vec::new()), LineColor(Rgba::black())) {
        Stroke::Gradient(ix) => assert!(ix.is_empty()),
        Stroke::Solid(_) => panic!("expected a gradient"),
    }
}

#[test]
fn defaults() {
    let f = FixedGearBundle::default();
    assert_eq!(f.radius, 150_000);
    assert!(f.draggable);
    assert_eq!(f.gear_color.0, Rgba::rgb(0xd9, 0x77, 0x06));
    let r = RotatingGearBundle::default();
    assert_eq!(r.line_color.0, Rgba::black());
    assert_eq!(r.gear_color.0, Rgba::rgb(0x93, 0x33, 0xea));
    let s = Settings::default();
    assert!(s.gizmos_enabled && s.show_sidebar);
}

#[test]
fn random_fixed_gears_stay_in_bounds_and_vary() {
    let bounds = Point::new(800_000, 600_000);
    let gears: Vec<FixedGearBundle> = (0..200).map(|_| FixedGearBundle::rand(bounds)).collect();
    for g in &gears {
        assert!(-400_000 <= g.position.x && g.position.x < 400_000);
        assert!(-300_000 <= g.position.y && g.position.y < 300_000);
        assert!(1_000 <= g.radius && g.radius < 256_000);
    }
    assert!(gears.iter().any(|g| g.radius != gears[0].radius));
    assert!(gears.iter().any(|g| g.position != gears[0].position));
}

#[test]
fn random_rotating_gears_stay_in_ranges_and_vary() {
    let gears: Vec<RotatingGearBundle> = (0..200).map(|_| RotatingGearBundle::rand()).collect();
    for g in &gears {
        assert!(0 <= g.rotation && g.rotation < 6_283_186);
        assert!(100_000 <= g.speed && g.speed < 16_000_000);
        assert!(1_000 <= g.radius && g.radius < 128_000);
        assert!(0 <= g.pen && g.pen < 64_000);
        assert!(g.line.0.is_empty());
    }
    assert!(gears.iter().any(|g| g.speed != gears[0].speed));
}

#[test]
fn input_toggles_sidebar() {
    let mut s = Settings::default();
    input(&mut s, false);
    assert!(s.show_sidebar);
    input(&mut s, true);
    assert!(!s.show_sidebar);
    assert!(s.gizmos_enabled);
    input(&mut s, true);
    assert!(s.show_sidebar);
}
