//! Plane geometry in fixed-point integers, and the rolling relation between a
//! rotating gear and the fixed gear it rolls around.
//!
//! Lengths and positions are counted in `LENGTH_UNIT`ths of a world unit, angles
//! in `ANGLE_UNIT`ths of a radian. Everything here is exact integer arithmetic.
use vstd::prelude::*;

verus! {

/// Fixed-point steps in one world unit of length.
pub const LENGTH_UNIT: i64 = 1000;

/// Fixed-point steps in one radian.
pub const ANGLE_UNIT: i64 = 1_000_000;

/// A point (or a displacement) in the plane.
#[derive(Clone, Copy, Debug, PartialEq, Eq, Structural)]
pub struct Point {
    pub x: i64,
    pub y: i64,
}

pub open spec fn fits_i64(v: int) -> bool {
    i64::MIN <= v <= i64::MAX
}

pub open spec fn abs(v: int) -> int {
    if v < 0 {
        -v
    } else {
        v
    }
}

/// Division that rounds toward zero, as Rust's integer `/` does.
pub open spec fn trunc_div(a: int, b: int) -> int {
    let q = abs(a) / abs(b);
    if (a < 0) != (b < 0) {
        -q
    } else {
        q
    }
}

/// Squared distance between two points.
pub open spec fn dist_sq(a: Point, b: Point) -> int {
    (a.x - b.x) * (a.x - b.x) + (a.y - b.y) * (a.y - b.y)
}

/// `a + d`, componentwise.
pub open spec fn add_spec(a: Point, d: Point) -> Point
    recommends
        fits_i64(a.x + d.x),
        fits_i64(a.y + d.y),
{
    Point { x: (a.x + d.x) as i64, y: (a.y + d.y) as i64 }
}

/// `a - b`, componentwise.
pub open spec fn sub_spec(a: Point, b: Point) -> Point
    recommends
        fits_i64(a.x - b.x),
        fits_i64(a.y - b.y),
{
    Point { x: (a.x - b.x) as i64, y: (a.y - b.y) as i64 }
}

impl Point {
    pub fn new(x: i64, y: i64) -> (r: Point)
        ensures
            r.x == x,
            r.y == y,
    {
        Point { x, y }
    }

    /// `self + d`, or `None` where a coordinate leaves the `i64` range.
    pub fn checked_add(self, d: Point) -> (r: Option<Point>)
        ensures
            r.is_some() <==> fits_i64(self.x + d.x) && fits_i64(self.y + d.y),
            r.is_some() ==> r->0 == add_spec(self, d),
    {
        match (self.x.checked_add(d.x), self.y.checked_add(d.y)) {
            (Some(x), Some(y)) => Some(Point { x, y }),
            _ => None,
        }
    }

    /// `self - b`, or `None` where a coordinate leaves the `i64` range.
    pub fn checked_sub(self, b: Point) -> (r: Option<Point>)
        ensures
            r.is_some() <==> fits_i64(self.x - b.x) && fits_i64(self.y - b.y),
            r.is_some() ==> r->0 == sub_spec(self, b),
    {
        match (self.x.checked_sub(b.x), self.y.checked_sub(b.y)) {
            (Some(x), Some(y)) => Some(Point { x, y }),
            _ => None,
        }
    }

    /// The squared distance to `other` where it is below `dist * dist`;
    /// `None` where it is not, or where `dist` is not positive.
    pub fn dist_sq_below(self, other: Point, dist: i64) -> (r: Option<i128>)
        ensures
            r.is_some() <==> (dist > 0 && dist_sq(self, other) < dist * dist),
            r.is_some() ==> r->0 == dist_sq(self, other),
    {
        if dist <= 0 {
            return None;
        }
        let d: i128 = dist as i128;
        let dx: i128 = self.x as i128 - other.x as i128;
        let dy: i128 = self.y as i128 - other.y as i128;
        if dx >= d || dx <= -d || dy >= d || dy <= -d {
            assert(dist_sq(self, other) >= d * d) by (nonlinear_arith)
                requires
                    d > 0,
                    dx >= d || dx <= -d || dy >= d || dy <= -d,
                    dist_sq(self, other) == dx * dx + dy * dy,
            ;
            return None;
        }
        assert(0 <= dx * dx < 0x4000_0000_0000_0000_0000_0000_0000_0000 && 0 <= dy * dy
            < 0x4000_0000_0000_0000_0000_0000_0000_0000) by (nonlinear_arith)
            requires
                0 < d <= 0x7fff_ffff_ffff_ffff,
                -d < dx < d,
                -d < dy < d,
        ;
        assert(d * d < 0x4000_0000_0000_0000_0000_0000_0000_0000) by (nonlinear_arith)
            requires
                0 < d <= 0x7fff_ffff_ffff_ffff,
        ;
        let s: i128 = dx * dx + dy * dy;
        if s < d * d {
            Some(s)
        } else {
            None
        }
    }
}

/// The pose of a rotating gear that has rolled through an accumulated angle
/// around a fixed gear.
#[derive(Clone, Copy, Debug, PartialEq, Eq, Structural)]
pub struct Roll {
    /// Total spin of the rotating gear: its own rotation plus the rolling.
    pub spin: i64,
    /// Direction of the rotating gear's center, seen from the fixed center.
    pub orbit_angle: i64,
    /// Distance between the two centers (signed: negative puts the center on
    /// the opposite side).
    pub orbit_radius: i64,
}

/// Angle through which the contact point has travelled around the fixed gear.
pub open spec fn orbit_angle_of(angle: int, fixed_radius: int, rotating_radius: int) -> int {
    trunc_div(angle * rotating_radius, fixed_radius)
}

pub open spec fn spin_of(angle: int, fixed_radius: int, rotating_radius: int) -> int {
    angle + orbit_angle_of(angle, fixed_radius, rotating_radius)
}

pub open spec fn orbit_radius_of(fixed_radius: int, rotating_radius: int) -> int {
    fixed_radius - rotating_radius
}

/// Whether the rolling relation is defined and representable on these inputs.
pub open spec fn roll_defined(angle: int, fixed_radius: int, rotating_radius: int) -> bool {
    &&& fixed_radius != 0
    &&& fits_i64(spin_of(angle, fixed_radius, rotating_radius))
    &&& fits_i64(orbit_angle_of(angle, fixed_radius, rotating_radius))
    &&& fits_i64(orbit_radius_of(fixed_radius, rotating_radius))
}

/// The rolling relation, on inputs where `roll_defined` holds.
pub open spec fn roll_of(angle: int, fixed_radius: int, rotating_radius: int) -> Roll {
    Roll {
        spin: spin_of(angle, fixed_radius, rotating_radius) as i64,
        orbit_angle: orbit_angle_of(angle, fixed_radius, rotating_radius) as i64,
        orbit_radius: orbit_radius_of(fixed_radius, rotating_radius) as i64,
    }
}

/// `a / b` rounded toward zero, for a non-zero `b`.
pub fn div_toward_zero(a: i128, b: i128) -> (q: i128)
    requires
        b != 0,
        a > i128::MIN,
        b > i128::MIN,
    ensures
        q == trunc_div(a as int, b as int),
{
    let ua: i128 = if a < 0 {
        -a
    } else {
        a
    };
    let ub: i128 = if b < 0 {
        -b
    } else {
        b
    };
    let q: i128 = ua / ub;
    assert(0 <= q <= ua) by (nonlinear_arith)
        requires
            ua >= 0,
            ub >= 1,
            q == ua / ub,
    ;
    if (a < 0) != (b < 0) {
        -q
    } else {
        q
    }
}

/// Rolls a gear of radius `rotating_radius` through the accumulated `angle`
/// around a fixed gear of radius `fixed_radius`: the distance travelled is
/// `angle * rotating_radius`, which turns the contact point by that distance
/// over `fixed_radius`. Returns `None` for a fixed radius of zero, and where a
/// result leaves the `i64` range.
pub fn advance(angle: i64, fixed_radius: i64, rotating_radius: i64) -> (r: Option<Roll>)
    ensures
        r.is_some() <==> roll_defined(angle as int, fixed_radius as int, rotating_radius as int),
        r.is_some() ==> r->0 == roll_of(angle as int, fixed_radius as int, rotating_radius as int),
{
    if fixed_radius == 0 {
        return None;
    }
    assert(-0x4000_0000_0000_0000_0000_0000_0000_0000 <= angle * rotating_radius
        <= 0x4000_0000_0000_0000_0000_0000_0000_0000) by (nonlinear_arith)
        requires
            i64::MIN <= angle <= i64::MAX,
            i64::MIN <= rotating_radius <= i64::MAX,
    ;
    let travelled: i128 = angle as i128 * rotating_radius as i128;
    let orbit: i128 = div_toward_zero(travelled, fixed_radius as i128);
    assert(abs(orbit as int) <= abs(travelled as int)) by (nonlinear_arith)
        requires
            orbit as int == trunc_div(travelled as int, fixed_radius as int),
            fixed_radius != 0,
    ;
    let spin: i128 = angle as i128 + orbit;
    let radius: i128 = fixed_radius as i128 - rotating_radius as i128;
    if orbit < i64::MIN as i128 || orbit > i64::MAX as i128 || spin < i64::MIN as i128 || spin
        > i64::MAX as i128 || radius < i64::MIN as i128 || radius > i64::MAX as i128 {
        return None;
    }
    Some(Roll { spin: spin as i64, orbit_angle: orbit as i64, orbit_radius: radius as i64 })
}

/// Where the rotating gear is as big as the fixed one, its center stays on the
/// fixed center whatever the angle.
pub proof fn lemma_equal_radii_share_center(angle: int, radius: int)
    requires
        roll_defined(angle, radius, radius),
    ensures
        roll_of(angle, radius, radius).orbit_radius == 0,
        roll_of(angle, radius, radius).spin == 2 * angle,
{
    assert(orbit_angle_of(angle, radius, radius) == angle) by (nonlinear_arith)
        requires
            radius != 0,
            orbit_angle_of(angle, radius, radius) == trunc_div(angle * radius, radius),
    ;
}

} // verus!
