//! Gears and their parameters, the color palette, and how a trace is drawn.
use crate::geometry::{Point, Roll, LENGTH_UNIT};
use vstd::prelude::*;

verus! {

/// An opaque color, one byte per channel.
#[derive(Clone, Copy, Debug, PartialEq, Eq, Structural)]
pub struct Rgba {
    pub r: u8,
    pub g: u8,
    pub b: u8,
    pub a: u8,
}

pub open spec fn rgb(r: u8, g: u8, b: u8) -> Rgba {
    Rgba { r, g, b, a: 255 }
}

/// How many colors the rainbow palette holds.
pub const RAINBOW_LEN: usize = 17;

/// The rainbow palette: the 600 shades of the tailwind hues, red to rose.
pub open spec fn rainbow_color(i: int) -> Rgba {
    if i == 0 {
        rgb(0xdc, 0x26, 0x26)
    } else if i == 1 {
        rgb(0xea, 0x58, 0x0c)
    } else if i == 2 {
        rgb(0xd9, 0x77, 0x06)
    } else if i == 3 {
        rgb(0xca, 0x8a, 0x04)
    } else if i == 4 {
        rgb(0x65, 0xa3, 0x0d)
    } else if i == 5 {
        rgb(0x16, 0xa3, 0x4a)
    } else if i == 6 {
        rgb(0x05, 0x96, 0x69)
    } else if i == 7 {
        rgb(0x0d, 0x94, 0x88)
    } else if i == 8 {
        rgb(0x08, 0x91, 0xb2)
    } else if i == 9 {
        rgb(0x02, 0x84, 0xc7)
    } else if i == 10 {
        rgb(0x25, 0x63, 0xeb)
    } else if i == 11 {
        rgb(0x4f, 0x46, 0xe5)
    } else if i == 12 {
        rgb(0x7c, 0x3a, 0xed)
    } else if i == 13 {
        rgb(0x93, 0x33, 0xea)
    } else if i == 14 {
        rgb(0xc0, 0x26, 0xd3)
    } else if i == 15 {
        rgb(0xdb, 0x27, 0x77)
    } else {
        rgb(0xe1, 0x1d, 0x48)
    }
}

impl Rgba {
    pub fn rgb(r: u8, g: u8, b: u8) -> (c: Rgba)
        ensures
            c == rgb(r, g, b),
    {
        Rgba { r, g, b, a: 255 }
    }

    pub fn black() -> (c: Rgba)
        ensures
            c == rgb(0, 0, 0),
    {
        Rgba::rgb(0, 0, 0)
    }

    /// The `i`th color of the rainbow palette.
    pub fn rainbow(i: usize) -> (c: Rgba)
        requires
            i < RAINBOW_LEN,
        ensures
            c == rainbow_color(i as int),
    {
        match i {
            0 => Rgba::rgb(0xdc, 0x26, 0x26),
            1 => Rgba::rgb(0xea, 0x58, 0x0c),
            2 => Rgba::rgb(0xd9, 0x77, 0x06),
            3 => Rgba::rgb(0xca, 0x8a, 0x04),
            4 => Rgba::rgb(0x65, 0xa3, 0x0d),
            5 => Rgba::rgb(0x16, 0xa3, 0x4a),
            6 => Rgba::rgb(0x05, 0x96, 0x69),
            7 => Rgba::rgb(0x0d, 0x94, 0x88),
            8 => Rgba::rgb(0x08, 0x91, 0xb2),
            9 => Rgba::rgb(0x02, 0x84, 0xc7),
            10 => Rgba::rgb(0x25, 0x63, 0xeb),
            11 => Rgba::rgb(0x4f, 0x46, 0xe5),
            12 => Rgba::rgb(0x7c, 0x3a, 0xed),
            13 => Rgba::rgb(0x93, 0x33, 0xea),
            14 => Rgba::rgb(0xc0, 0x26, 0xd3),
            15 => Rgba::rgb(0xdb, 0x27, 0x77),
            _ => Rgba::rgb(0xe1, 0x1d, 0x48),
        }
    }
}

/// Color a gear is drawn with.
#[derive(Clone, Copy, Debug, PartialEq, Eq, Structural)]
pub struct GearColor(pub Rgba);

/// Color of a pen's trace; black stands for the rainbow gradient.
#[derive(Clone, Copy, Debug, PartialEq, Eq, Structural)]
pub struct LineColor(pub Rgba);

/// The trace of a pen: its positions, oldest first.
#[derive(Clone, Debug)]
pub struct Line(pub Vec<Point>);

/// Where a rotating gear's pen tip is.
#[derive(Clone, Copy, Debug, PartialEq, Eq, Structural)]
pub struct PenPos(pub Point);

/// Draw settings shared by the whole simulation.
#[derive(Clone, Copy, Debug, PartialEq, Eq, Structural)]
pub struct Settings {
    pub gizmos_enabled: bool,
    pub show_sidebar: bool,
}

impl Default for Settings {
    fn default() -> (s: Settings)
        ensures
            s.gizmos_enabled,
            s.show_sidebar,
    {
        Settings { gizmos_enabled: true, show_sidebar: true }
    }
}

/// A stationary gear that rotating gears roll around. Lengths are in
/// `LENGTH_UNIT`ths of a world unit.
#[derive(Clone, Copy, Debug, PartialEq, Eq, Structural)]
pub struct FixedGearBundle {
    pub radius: i64,
    pub gear_color: GearColor,
    pub position: Point,
    pub draggable: bool,
}

pub open spec fn default_fixed_at(position: Point) -> FixedGearBundle {
    FixedGearBundle {
        radius: 150_000,
        gear_color: GearColor(rgb(0xd9, 0x77, 0x06)),
        position,
        draggable: true,
    }
}

impl Default for FixedGearBundle {
    fn default() -> (g: FixedGearBundle)
        ensures
            g == default_fixed_at(Point { x: 0, y: 0 }),
    {
        FixedGearBundle::new(Point { x: 0, y: 0 })
    }
}

/// Relies on rand's `thread_rng` and `Rng::gen_range`: a value drawn from the
/// half-open range `[lo, hi)`, which must not be empty.
#[verifier::external_body]
fn random_in(lo: i64, hi: i64) -> (r: i64)
    requires
        lo < hi,
    ensures
        lo <= r < hi,
{
    rand::Rng::gen_range(&mut rand::thread_rng(), lo..hi)
}

fn random_rainbow() -> (c: Rgba)
    ensures
        exists|i: int| 0 <= i < RAINBOW_LEN && c == rainbow_color(i),
{
    let i = random_in(0, RAINBOW_LEN as i64);
    Rgba::rainbow(i as usize)
}

impl FixedGearBundle {
    /// A fixed gear with the default radius and color at `position`.
    pub fn new(position: Point) -> (g: FixedGearBundle)
        ensures
            g == default_fixed_at(position),
    {
        FixedGearBundle {
            radius: 150 * LENGTH_UNIT,
            gear_color: GearColor(Rgba::rgb(0xd9, 0x77, 0x06)),
            position,
            draggable: true,
        }
    }

    /// A fixed gear at a random place inside a box of size `bounds` centered on
    /// the origin, with a random radius in `[1, 256)` world units and a random
    /// rainbow color.
    pub fn rand(bounds: Point) -> (g: FixedGearBundle)
        requires
            bounds.x / 2 > 0,
            bounds.y / 2 > 0,
        ensures
            -(bounds.x / 2) <= g.position.x < bounds.x / 2,
            -(bounds.y / 2) <= g.position.y < bounds.y / 2,
            LENGTH_UNIT <= g.radius < 256 * LENGTH_UNIT,
            exists|i: int| 0 <= i < RAINBOW_LEN && g.gear_color.0 == rainbow_color(i),
            g.draggable,
    {
        let hx: i64 = bounds.x / 2;
        let hy: i64 = bounds.y / 2;
        let x = random_in(-hx, hx);
        let y = random_in(-hy, hy);
        let radius = random_in(LENGTH_UNIT, 256 * LENGTH_UNIT);
        let color = random_rainbow();
        FixedGearBundle {
            radius,
            gear_color: GearColor(color),
            position: Point { x, y },
            draggable: true,
        }
    }
}

/// A gear rolling around its fixed gear, with a pen that leaves a trace.
/// Lengths are in `LENGTH_UNIT`ths of a world unit, angles in `ANGLE_UNIT`ths
/// of a radian, the speed in angle steps per second.
#[derive(Clone, Debug)]
pub struct RotatingGearBundle {
    /// Accumulated rotation.
    pub rotation: i64,
    pub speed: i64,
    pub radius: i64,
    /// Distance of the pen from the gear's center.
    pub pen: i64,
    pub gear_color: GearColor,
    pub line_color: LineColor,
    pub line: Line,
    pub pen_pos: PenPos,
    /// Where the gear's center is.
    pub position: Point,
    /// The last rolling pose; the gear's orientation is `-roll.spin`.
    pub roll: Roll,
    pub paused: bool,
}

/// The default rotating gear, with an empty trace.
pub open spec fn is_default_rotating(g: RotatingGearBundle) -> bool {
    &&& g.rotation == 0
    &&& g.speed == 8 * crate::geometry::ANGLE_UNIT
    &&& g.radius == 55 * LENGTH_UNIT
    &&& g.pen == 40 * LENGTH_UNIT
    &&& g.gear_color == GearColor(rgb(0x93, 0x33, 0xea))
    &&& g.line_color == LineColor(rgb(0, 0, 0))
    &&& g.line.0@ == Seq::<Point>::empty()
    &&& g.pen_pos == PenPos(Point { x: 0, y: 0 })
    &&& g.position == Point { x: 0, y: 0 }
    &&& g.roll == Roll { spin: 0, orbit_angle: 0, orbit_radius: 0 }
    &&& !g.paused
}

impl Default for RotatingGearBundle {
    fn default() -> (g: RotatingGearBundle)
        ensures
            is_default_rotating(g),
    {
        RotatingGearBundle {
            rotation: 0,
            speed: 8 * crate::geometry::ANGLE_UNIT,
            radius: 55 * LENGTH_UNIT,
            pen: 40 * LENGTH_UNIT,
            gear_color: GearColor(Rgba::rgb(0x93, 0x33, 0xea)),
            line_color: LineColor(Rgba::black()),
            line: Line(Vec::new()),
            pen_pos: PenPos(Point { x: 0, y: 0 }),
            position: Point { x: 0, y: 0 },
            roll: Roll { spin: 0, orbit_angle: 0, orbit_radius: 0 },
            paused: false,
        }
    }
}

impl RotatingGearBundle {
    /// A rotating gear with a random rotation in `[0, 2π)`, speed in
    /// `[0.1, 16)` radians per second, radius in `[1, 128)` world units, pen
    /// distance in `[0, 64)` world units and rainbow color; the rest default.
    pub fn rand() -> (g: RotatingGearBundle)
        ensures
            0 <= g.rotation < 6_283_186,
            100_000 <= g.speed < 16 * crate::geometry::ANGLE_UNIT,
            LENGTH_UNIT <= g.radius < 128 * LENGTH_UNIT,
            0 <= g.pen < 64 * LENGTH_UNIT,
            exists|i: int| 0 <= i < RAINBOW_LEN && g.gear_color.0 == rainbow_color(i),
            g.line_color == LineColor(rgb(0, 0, 0)),
            g.line.0@ == Seq::<Point>::empty(),
            g.pen_pos == PenPos(Point { x: 0, y: 0 }),
            g.position == (Point { x: 0, y: 0 }),
            g.roll == (Roll { spin: 0, orbit_angle: 0, orbit_radius: 0 }),
            !g.paused,
    {
        let rotation = random_in(0, 6_283_186);
        let speed = random_in(100_000, 16 * crate::geometry::ANGLE_UNIT);
        let radius = random_in(LENGTH_UNIT, 128 * LENGTH_UNIT);
        let color = random_rainbow();
        let pen = random_in(0, 64 * LENGTH_UNIT);
        let g = RotatingGearBundle::default();
        RotatingGearBundle { rotation, speed, radius, gear_color: GearColor(color), pen, ..g }
    }
}

/// How many consecutive trace points share one rainbow color.
pub const POINTS_PER_COLOR: usize = 4;

/// How a trace is drawn: in one color, or as a gradient that gives each point
/// a rainbow palette index.
#[derive(Clone, Debug)]
pub enum Stroke {
    Solid(Rgba),
    Gradient(Vec<usize>),
}

/// The rainbow palette index of the `i`th point of a gradient trace: each color
/// covers `POINTS_PER_COLOR` points, and the palette repeats.
pub open spec fn gradient_index(i: int) -> int {
    (i / POINTS_PER_COLOR as int) % RAINBOW_LEN as int
}

/// How to draw `line`: a black line color stands for the rainbow gradient, any
/// other color is drawn as it is.
pub fn draw_line(line: &Line, color: LineColor) -> (r: Stroke)
    ensures
        color.0 == rgb(0, 0, 0) ==> match r {
            Stroke::Gradient(ix) => ix@.len() == line.0@.len() && forall|i: int|
                0 <= i < ix@.len() ==> #[trigger] ix@[i] == gradient_index(i),
            Stroke::Solid(_) => false,
        },
        color.0 != rgb(0, 0, 0) ==> r == Stroke::Solid(color.0),
{
    if color.0 != Rgba::black() {
        return Stroke::Solid(color.0);
    }
    let n = line.0.len();
    let mut ix: Vec<usize> = Vec::new();
    let mut i: usize = 0;
    while i < n
        invariant
            n == line.0@.len(),
            i <= n,
            ix@.len() == i,
            forall|k: int| 0 <= k < i ==> #[trigger] ix@[k] == gradient_index(k),
        decreases n - i,
    {
        ix.push((i / POINTS_PER_COLOR) % RAINBOW_LEN);
        i = i + 1;
    }
    Stroke::Gradient(ix)
}

} // verus!
