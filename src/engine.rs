//! The kinematics engine. One simulation tick runs three steps in order:
//! `rotate_gears` advances every unpaused rotating gear's rotation and rolling
//! pose; the caller turns each pose into plane offsets (`Placement`);
//! `place_gears` moves the gears and their pens there; `update_line` appends
//! each unpaused pen position to its trace.
use crate::geometry::{
    add_spec, advance, div_toward_zero, fits_i64, roll_defined, roll_of, trunc_div, Point,
};
use crate::registry::{
    children_step, entry_step, ChildStep, FixedEntry, Gears, RotatingEntry,
};
use crate::spiro::{FixedGearBundle, PenPos, RotatingGearBundle};
use vstd::prelude::*;

verus! {

/// Microseconds in one second: the unit of a tick's duration.
pub const MICROS_PER_SECOND: i64 = 1_000_000;

/// The rotation after a tick of `dt` microseconds at the gear's speed.
pub open spec fn stepped_rotation(c: RotatingGearBundle, dt: i64) -> int {
    c.rotation + trunc_div(c.speed * dt, MICROS_PER_SECOND as int)
}

/// Whether the gear moves this tick: it is not paused, and its new rotation
/// and rolling pose are defined and representable.
pub open spec fn can_roll(f: FixedGearBundle, c: RotatingGearBundle, dt: i64) -> bool {
    &&& !c.paused
    &&& fits_i64(stepped_rotation(c, dt))
    &&& roll_defined(stepped_rotation(c, dt), f.radius as int, c.radius as int)
}

/// The gear after a tick of `dt` microseconds around the fixed gear `f`.
pub open spec fn rolled(f: FixedGearBundle, c: RotatingGearBundle, dt: i64) -> RotatingGearBundle {
    if can_roll(f, c, dt) {
        RotatingGearBundle {
            rotation: stepped_rotation(c, dt) as i64,
            roll: roll_of(stepped_rotation(c, dt), f.radius as int, c.radius as int),
            ..c
        }
    } else {
        c
    }
}

pub open spec fn rotation_step(dt: i64) -> ChildStep {
    |f: FixedEntry, c: RotatingEntry, n: RotatingEntry|
        n == (RotatingEntry { gear: rolled(f.gear, c.gear, dt), ..c })
}

/// Where a rotating gear goes: its center's offset from its fixed gear's
/// center, and its pen's offset from its own center.
#[derive(Clone, Copy, Debug, PartialEq, Eq, Structural)]
pub struct Placement {
    pub fixed: u64,
    pub gear: u64,
    pub offset: Point,
    pub pen_offset: Point,
}

/// The first placement for the rotating gear `gid` of the fixed gear `fid`.
pub open spec fn find_placement(ps: Seq<Placement>, fid: u64, gid: u64) -> Option<Placement>
    decreases ps.len(),
{
    if ps.len() == 0 {
        None
    } else if ps[0].fixed == fid && ps[0].gear == gid {
        Some(ps[0])
    } else {
        find_placement(ps.drop_first(), fid, gid)
    }
}

/// The gear `c` of the fixed gear `f` moved by its placement in `ps`. A paused
/// gear, one without a placement, and one whose new center or pen would leave
/// the coordinate range stay where they are.
pub open spec fn placed(f: FixedEntry, c: RotatingEntry, ps: Seq<Placement>) -> RotatingGearBundle {
    match find_placement(ps, f.id, c.id) {
        Some(p) => {
            let t = f.gear.position;
            if !c.gear.paused && fits_i64(t.x + p.offset.x) && fits_i64(t.y + p.offset.y)
                && fits_i64(t.x + p.offset.x + p.pen_offset.x) && fits_i64(
                t.y + p.offset.y + p.pen_offset.y,
            ) {
                let center = add_spec(t, p.offset);
                RotatingGearBundle {
                    position: center,
                    pen_pos: PenPos(add_spec(center, p.pen_offset)),
                    ..c.gear
                }
            } else {
                c.gear
            }
        },
        None => c.gear,
    }
}

pub open spec fn placement_step(ps: Seq<Placement>) -> ChildStep {
    |f: FixedEntry, c: RotatingEntry, n: RotatingEntry|
        n == (RotatingEntry { gear: placed(f, c, ps), ..c })
}

/// An unpaused gear's trace grows by its pen position; a paused gear stays.
pub open spec fn traced(c: RotatingEntry, n: RotatingEntry) -> bool {
    if c.gear.paused {
        n == c
    } else {
        &&& n.gear.line.0@ == c.gear.line.0@.push(c.gear.pen_pos.0)
        &&& n == (RotatingEntry { gear: RotatingGearBundle { line: n.gear.line, ..c.gear }, ..c })
    }
}

pub open spec fn line_step() -> ChildStep {
    |f: FixedEntry, c: RotatingEntry, n: RotatingEntry| traced(c, n)
}

/// `rotation + speed * dt / MICROS_PER_SECOND`, or `None` where it leaves the
/// `i64` range.
fn step_rotation(rotation: i64, speed: i64, dt: i64) -> (r: Option<i64>)
    ensures
        r.is_some() <==> fits_i64(rotation + trunc_div(speed * dt, MICROS_PER_SECOND as int)),
        r.is_some() ==> r->0 == rotation + trunc_div(speed * dt, MICROS_PER_SECOND as int),
{
    assert(-0x4000_0000_0000_0000_0000_0000_0000_0000 <= speed * dt
        <= 0x4000_0000_0000_0000_0000_0000_0000_0000) by (nonlinear_arith)
        requires
            i64::MIN <= speed <= i64::MAX,
            i64::MIN <= dt <= i64::MAX,
    ;
    let product: i128 = speed as i128 * dt as i128;
    let delta: i128 = div_toward_zero(product, MICROS_PER_SECOND as i128);
    assert(-0x4000_0000_0000_0000_0000_0000_0000_0000 <= delta
        <= 0x4000_0000_0000_0000_0000_0000_0000_0000) by (nonlinear_arith)
        requires
            -0x4000_0000_0000_0000_0000_0000_0000_0000 <= product
                <= 0x4000_0000_0000_0000_0000_0000_0000_0000,
            delta == trunc_div(product as int, 1_000_000),
    ;
    let sum: i128 = rotation as i128 + delta;
    if sum < i64::MIN as i128 || sum > i64::MAX as i128 {
        None
    } else {
        Some(sum as i64)
    }
}

/// The first placement in `ps` for the rotating gear `gid` of the fixed gear
/// `fid`.
pub fn placement_for(ps: &Vec<Placement>, fid: u64, gid: u64) -> (r: Option<Placement>)
    ensures
        r == find_placement(ps@, fid, gid),
{
    let mut k: usize = 0;
    assert(ps@.subrange(0, ps@.len() as int) =~= ps@);
    while k < ps.len()
        invariant
            k <= ps@.len(),
            find_placement(ps@, fid, gid) == find_placement(
                ps@.subrange(k as int, ps@.len() as int),
                fid,
                gid,
            ),
        decreases ps@.len() - k,
    {
        let p = ps[k];
        let ghost rest = ps@.subrange(k as int, ps@.len() as int);
        if p.fixed == fid && p.gear == gid {
            assert(rest[0] == p);
            return Some(p);
        }
        assert(rest.drop_first() =~= ps@.subrange(k + 1, ps@.len() as int));
        k = k + 1;
    }
    assert(ps@.subrange(k as int, ps@.len() as int).len() == 0);
    None
}

impl FixedEntry {
    /// Advances each unpaused child by a tick of `dt` microseconds.
    pub fn rotate_children(&mut self, dt: i64)
        ensures
            entry_step(*old(self), *final(self), rotation_step(dt)),
    {
        let ghost start = *self;
        let n = self.children.len();
        let fixed_radius = self.gear.radius;
        let mut j: usize = 0;
        while j < n
            invariant
                n == self.children@.len(),
                n == start.children@.len(),
                j <= n,
                self.id == start.id,
                self.gear == start.gear,
                fixed_radius == start.gear.radius,
                forall|k: int|
                    #![trigger self.children@[k]]
                    0 <= k < j ==> self.children@[k].id == start.children@[k].id
                        && (rotation_step(dt))(start, start.children@[k], self.children@[k]),
                forall|k: int| j <= k < n ==> #[trigger] self.children@[k] == start.children@[k],
            decreases n - j,
        {
            let ghost prev = self.children@;
            let paused = self.children[j].gear.paused;
            if !paused {
                let rotation = self.children[j].gear.rotation;
                let speed = self.children[j].gear.speed;
                let radius = self.children[j].gear.radius;
                if let Some(next) = step_rotation(rotation, speed, dt) {
                    if let Some(roll) = advance(next, fixed_radius, radius) {
                        self.children[j].gear.rotation = next;
                        self.children[j].gear.roll = roll;
                    }
                }
            }
            assert(forall|k: int| 0 <= k < n && k != j ==> self.children@[k] == prev[k]);
            j = j + 1;
        }
    }

    /// Moves each unpaused child by its placement in `ps`.
    pub fn place_children(&mut self, ps: &Vec<Placement>)
        ensures
            entry_step(*old(self), *final(self), placement_step(ps@)),
    {
        let ghost start = *self;
        let n = self.children.len();
        let fid = self.id;
        let t = self.gear.position;
        let mut j: usize = 0;
        while j < n
            invariant
                n == self.children@.len(),
                n == start.children@.len(),
                j <= n,
                self.id == start.id,
                self.gear == start.gear,
                fid == start.id,
                t == start.gear.position,
                forall|k: int|
                    #![trigger self.children@[k]]
                    0 <= k < j ==> self.children@[k].id == start.children@[k].id
                        && (placement_step(ps@))(start, start.children@[k], self.children@[k]),
                forall|k: int| j <= k < n ==> #[trigger] self.children@[k] == start.children@[k],
            decreases n - j,
        {
            let ghost prev = self.children@;
            let paused = self.children[j].gear.paused;
            let gid = self.children[j].id;
            if !paused {
                if let Some(p) = placement_for(ps, fid, gid) {
                    if let Some(center) = t.checked_add(p.offset) {
                        if let Some(pen) = center.checked_add(p.pen_offset) {
                            self.children[j].gear.position = center;
                            self.children[j].gear.pen_pos = PenPos(pen);
                        }
                    }
                }
            }
            assert(forall|k: int| 0 <= k < n && k != j ==> self.children@[k] == prev[k]);
            j = j + 1;
        }
    }

    /// Appends each unpaused child's pen position to its trace.
    pub fn extend_lines(&mut self)
        ensures
            entry_step(*old(self), *final(self), line_step()),
    {
        let ghost start = *self;
        let n = self.children.len();
        let mut j: usize = 0;
        while j < n
            invariant
                n == self.children@.len(),
                n == start.children@.len(),
                j <= n,
                self.id == start.id,
                self.gear == start.gear,
                forall|k: int|
                    #![trigger self.children@[k]]
                    0 <= k < j ==> self.children@[k].id == start.children@[k].id
                        && traced(start.children@[k], self.children@[k]),
                forall|k: int| j <= k < n ==> #[trigger] self.children@[k] == start.children@[k],
            decreases n - j,
        {
            let ghost prev = self.children@;
            if !self.children[j].gear.paused {
                let p = self.children[j].gear.pen_pos.0;
                self.children[j].gear.line.0.push(p);
            }
            assert(forall|k: int| 0 <= k < n && k != j ==> self.children@[k] == prev[k]);
            assert(traced(start.children@[j as int], self.children@[j as int]));
            j = j + 1;
        }
    }
}

impl Gears {
    /// Advances every unpaused rotating gear by a tick of `dt` microseconds:
    /// its rotation grows by `speed * dt`, and its rolling pose follows from
    /// the new rotation and the two radii. A gear whose fixed gear has radius
    /// zero, or whose new values leave the `i64` range, stays as it is.
    pub fn rotate_gears(&mut self, dt: i64)
        requires
            old(self).wf(),
        ensures
            final(self).wf(),
            final(self).next_id == old(self).next_id,
            children_step(old(self)@, final(self)@, rotation_step(dt)),
    {
        let ghost start = *self;
        let n = self.fixed.len();
        let mut i: usize = 0;
        while i < n
            invariant
                n == self@.len(),
                n == start@.len(),
                i <= n,
                self.next_id == start.next_id,
                forall|k: int|
                    0 <= k < i ==> #[trigger] entry_step(start@[k], self@[k], rotation_step(dt)),
                forall|k: int| i <= k < n ==> #[trigger] self@[k] == start@[k],
            decreases n - i,
        {
            self.fixed[i].rotate_children(dt);
            i = i + 1;
        }
        proof {
            Gears::lemma_children_step_wf(start, *self, rotation_step(dt));
        }
    }

    /// Moves every unpaused rotating gear by its placement: its center to its
    /// fixed gear's center plus the offset, its pen to the new center plus the
    /// pen offset.
    pub fn place_gears(&mut self, ps: &Vec<Placement>)
        requires
            old(self).wf(),
        ensures
            final(self).wf(),
            final(self).next_id == old(self).next_id,
            children_step(old(self)@, final(self)@, placement_step(ps@)),
    {
        let ghost start = *self;
        let n = self.fixed.len();
        let mut i: usize = 0;
        while i < n
            invariant
                n == self@.len(),
                n == start@.len(),
                i <= n,
                self.next_id == start.next_id,
                forall|k: int|
                    0 <= k < i ==> #[trigger] entry_step(start@[k], self@[k], placement_step(ps@)),
                forall|k: int| i <= k < n ==> #[trigger] self@[k] == start@[k],
            decreases n - i,
        {
            self.fixed[i].place_children(ps);
            i = i + 1;
        }
        proof {
            Gears::lemma_children_step_wf(start, *self, placement_step(ps@));
        }
    }

    /// Appends every unpaused pen position to its trace.
    pub fn update_line(&mut self)
        requires
            old(self).wf(),
        ensures
            final(self).wf(),
            final(self).next_id == old(self).next_id,
            children_step(old(self)@, final(self)@, line_step()),
    {
        let ghost start = *self;
        let n = self.fixed.len();
        let mut i: usize = 0;
        while i < n
            invariant
                n == self@.len(),
                n == start@.len(),
                i <= n,
                self.next_id == start.next_id,
                forall|k: int| 0 <= k < i ==> #[trigger] entry_step(start@[k], self@[k], line_step()),
                forall|k: int| i <= k < n ==> #[trigger] self@[k] == start@[k],
            decreases n - i,
        {
            self.fixed[i].extend_lines();
            i = i + 1;
        }
        proof {
            Gears::lemma_children_step_wf(start, *self, line_step());
        }
    }
}

/// The states of a tick: `g0` before it, `g1` after `rotate_gears`, `g2` after
/// `place_gears`, `g3` after `update_line`.
pub open spec fn is_tick(
    g0: Seq<FixedEntry>,
    g1: Seq<FixedEntry>,
    g2: Seq<FixedEntry>,
    g3: Seq<FixedEntry>,
    dt: i64,
    ps: Seq<Placement>,
) -> bool {
    &&& children_step(g0, g1, rotation_step(dt))
    &&& children_step(g1, g2, placement_step(ps))
    &&& children_step(g2, g3, line_step())
}

/// A paused rotating gear comes out of a tick exactly as it went in: same
/// rotation, position, pen position and trace.
pub proof fn lemma_paused_gear_unchanged(
    g0: Seq<FixedEntry>,
    g1: Seq<FixedEntry>,
    g2: Seq<FixedEntry>,
    g3: Seq<FixedEntry>,
    dt: i64,
    ps: Seq<Placement>,
    i: int,
    j: int,
)
    requires
        is_tick(g0, g1, g2, g3, dt, ps),
        0 <= i < g0.len(),
        0 <= j < g0[i].children@.len(),
        g0[i].children@[j].gear.paused,
    ensures
        g3[i].children@[j] == g0[i].children@[j],
        g3[i].children@[j].gear.line.0@ == g0[i].children@[j].gear.line.0@,
{
    assert(entry_step(g0[i], g1[i], rotation_step(dt)));
    assert(g1[i].children@[j].id == g0[i].children@[j].id);
    assert(entry_step(g1[i], g2[i], placement_step(ps)));
    assert(g2[i].children@[j].id == g1[i].children@[j].id);
    assert(entry_step(g2[i], g3[i], line_step()));
    assert(g3[i].children@[j].id == g2[i].children@[j].id);
}

/// An unpaused rotating gear's trace grows by exactly one point in a tick,
/// and that point is the pen position the tick computed.
pub proof fn lemma_unpaused_trace_grows(
    g0: Seq<FixedEntry>,
    g1: Seq<FixedEntry>,
    g2: Seq<FixedEntry>,
    g3: Seq<FixedEntry>,
    dt: i64,
    ps: Seq<Placement>,
    i: int,
    j: int,
)
    requires
        is_tick(g0, g1, g2, g3, dt, ps),
        0 <= i < g0.len(),
        0 <= j < g0[i].children@.len(),
        !g0[i].children@[j].gear.paused,
    ensures
        g3[i].children@[j].gear.line.0@ == g0[i].children@[j].gear.line.0@.push(
            g3[i].children@[j].gear.pen_pos.0,
        ),
        g3[i].children@[j].gear.pen_pos == g2[i].children@[j].gear.pen_pos,
        g3[i].children@[j].gear.line.0@.len() == g0[i].children@[j].gear.line.0@.len() + 1,
{
    assert(entry_step(g0[i], g1[i], rotation_step(dt)));
    assert(g1[i].children@[j].id == g0[i].children@[j].id);
    assert(entry_step(g1[i], g2[i], placement_step(ps)));
    assert(g2[i].children@[j].id == g1[i].children@[j].id);
    assert(entry_step(g2[i], g3[i], line_step()));
    assert(g3[i].children@[j].id == g2[i].children@[j].id);
}

} // verus!
