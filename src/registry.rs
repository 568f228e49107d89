//! The gear registry: fixed gears in creation order, each owning its rotating
//! gears. Every gear carries an id that is never handed out twice.
use crate::geometry::Point;
use crate::spiro::{
    default_fixed_at, is_default_rotating, FixedGearBundle, GearColor, Line, LineColor,
    RotatingGearBundle,
};
use vstd::prelude::*;

verus! {

/// A rotating gear in the registry.
#[derive(Clone, Debug)]
pub struct RotatingEntry {
    pub id: u64,
    pub gear: RotatingGearBundle,
}

/// A fixed gear in the registry, with the rotating gears it owns in insertion
/// order.
#[derive(Clone, Debug)]
pub struct FixedEntry {
    pub id: u64,
    pub gear: FixedGearBundle,
    pub children: Vec<RotatingEntry>,
}

/// All gears of a simulation.
#[derive(Clone, Debug)]
pub struct Gears {
    pub fixed: Vec<FixedEntry>,
    /// The id the next spawned gear receives.
    pub next_id: u64,
}

pub open spec fn fixed_ids_increasing(s: Seq<FixedEntry>) -> bool {
    forall|a: int, b: int| 0 <= a < b < s.len() ==> #[trigger] s[a].id < #[trigger] s[b].id
}

pub open spec fn rotating_ids_increasing(s: Seq<RotatingEntry>) -> bool {
    forall|a: int, b: int| 0 <= a < b < s.len() ==> #[trigger] s[a].id < #[trigger] s[b].id
}

/// Ids below `bound`, increasing in order, among a fixed gear's children.
pub open spec fn fixed_entry_wf(e: FixedEntry, bound: u64) -> bool {
    &&& e.id < bound
    &&& rotating_ids_increasing(e.children@)
    &&& forall|j: int| 0 <= j < e.children@.len() ==> #[trigger] e.children@[j].id < bound
}

/// The same gears with the same ids in the same places; other fields may differ.
pub open spec fn same_ids(a: Seq<FixedEntry>, b: Seq<FixedEntry>) -> bool {
    &&& a.len() == b.len()
    &&& forall|i: int| 0 <= i < a.len() ==> #[trigger] same_entry_ids(a[i], b[i])
}

pub open spec fn same_entry_ids(a: FixedEntry, b: FixedEntry) -> bool {
    &&& a.id == b.id
    &&& a.children@.len() == b.children@.len()
    &&& forall|j: int| 0 <= j < a.children@.len() ==> #[trigger] a.children@[j].id == b.children@[j].id
}

impl View for Gears {
    type V = Seq<FixedEntry>;

    open spec fn view(&self) -> Seq<FixedEntry> {
        self.fixed@
    }
}

/// `n` is `c` with its trace emptied.
pub open spec fn cleared(c: RotatingEntry, n: RotatingEntry) -> bool {
    &&& n.gear.line.0@ == Seq::<Point>::empty()
    &&& n == (RotatingEntry { gear: RotatingGearBundle { line: n.gear.line, ..c.gear }, ..c })
}

/// A relation between a rotating gear before and after a step, given the
/// fixed gear that owns it (as it was before the step).
pub type ChildStep = spec_fn(FixedEntry, RotatingEntry, RotatingEntry) -> bool;

/// `b` is `a` with each rotating gear stepped by `step`; ids, the fixed gear
/// itself and the number of children stay.
pub open spec fn entry_step(a: FixedEntry, b: FixedEntry, step: ChildStep) -> bool {
    &&& b.id == a.id
    &&& b.gear == a.gear
    &&& b.children@.len() == a.children@.len()
    &&& forall|j: int|
        0 <= j < a.children@.len() ==> #[trigger] b.children@[j].id == a.children@[j].id && step(
            a,
            a.children@[j],
            b.children@[j],
        )
}

/// Every fixed gear of `a` stepped by `entry_step` gives `b`.
pub open spec fn children_step(a: Seq<FixedEntry>, b: Seq<FixedEntry>, step: ChildStep) -> bool {
    &&& a.len() == b.len()
    &&& forall|i: int| 0 <= i < a.len() ==> #[trigger] entry_step(a[i], b[i], step)
}

/// Only the rotating gear `gid` of the fixed gear `fid` changes, by `change`.
pub open spec fn one_gear_step(fid: u64, gid: u64, change: spec_fn(RotatingEntry, RotatingEntry) -> bool) -> ChildStep {
    |f: FixedEntry, c: RotatingEntry, n: RotatingEntry|
        if f.id == fid && c.id == gid {
            change(c, n)
        } else {
            n == c
        }
}

/// The trace is emptied, nothing else changes.
pub open spec fn clear_change() -> spec_fn(RotatingEntry, RotatingEntry) -> bool {
    |c: RotatingEntry, n: RotatingEntry| cleared(c, n)
}

/// The pause flag becomes `paused`, nothing else changes.
pub open spec fn pause_change(paused: bool) -> spec_fn(RotatingEntry, RotatingEntry) -> bool {
    |c: RotatingEntry, n: RotatingEntry|
        n == (RotatingEntry { gear: RotatingGearBundle { paused, ..c.gear }, ..c })
}

/// The parameters of a rotating gear that its user edits.
#[derive(Clone, Copy, Debug, PartialEq, Eq, Structural)]
pub struct GearParams {
    pub speed: i64,
    pub radius: i64,
    pub pen: i64,
    pub line_color: LineColor,
    pub gear_color: GearColor,
}

/// The edited parameters are replaced, nothing else changes.
pub open spec fn params_change(p: GearParams) -> spec_fn(RotatingEntry, RotatingEntry) -> bool {
    |c: RotatingEntry, n: RotatingEntry|
        n == (RotatingEntry {
            gear: RotatingGearBundle {
                speed: p.speed,
                radius: p.radius,
                pen: p.pen,
                line_color: p.line_color,
                gear_color: p.gear_color,
                ..c.gear
            },
            ..c
        })
}

/// Every trace is emptied.
pub open spec fn clear_all_step() -> ChildStep {
    |f: FixedEntry, c: RotatingEntry, n: RotatingEntry| cleared(c, n)
}

pub proof fn lemma_children_step_same_ids(a: Seq<FixedEntry>, b: Seq<FixedEntry>, step: ChildStep)
    requires
        children_step(a, b, step),
    ensures
        same_ids(a, b),
{
    assert forall|i: int| 0 <= i < a.len() implies #[trigger] same_entry_ids(a[i], b[i]) by {
        assert(entry_step(a[i], b[i], step));
        assert forall|j: int| 0 <= j < a[i].children@.len() implies #[trigger] a[i].children@[j].id
            == b[i].children@[j].id by {
            assert(b[i].children@[j].id == a[i].children@[j].id);
        }
    }
}

impl FixedEntry {
    /// Empties the trace of each child.
    pub fn clear_lines(&mut self)
        ensures
            entry_step(*old(self), *final(self), clear_all_step()),
    {
        let ghost start = *self;
        let n = self.children.len();
        let mut j: usize = 0;
        while j < n
            invariant
                n == self.children@.len(),
                n == start.children@.len(),
                j <= n,
                self.id == start.id,
                self.gear == start.gear,
                forall|k: int|
                    0 <= k < j ==> #[trigger] self.children@[k].id == start.children@[k].id
                        && cleared(start.children@[k], self.children@[k]),
                forall|k: int| j <= k < n ==> #[trigger] self.children@[k] == start.children@[k],
            decreases n - j,
        {
            let ghost prev = self.children@;
            self.children[j].gear.line = Line(Vec::new());
            assert(forall|k: int| 0 <= k < n && k != j ==> self.children@[k] == prev[k]);
            assert(cleared(start.children@[j as int], self.children@[j as int]));
            j = j + 1;
        }
    }
}

impl Gears {
    /// Ids increase in order and stay below `next_id`.
    pub open spec fn wf(&self) -> bool {
        &&& fixed_ids_increasing(self.fixed@)
        &&& forall|i: int|
            0 <= i < self.fixed@.len() ==> #[trigger] fixed_entry_wf(self.fixed@[i], self.next_id)
    }

    pub proof fn lemma_same_ids_wf(a: Gears, b: Gears)
        requires
            a.wf(),
            a.next_id == b.next_id,
            same_ids(a@, b@),
        ensures
            b.wf(),
    {
        assert forall|x: int, y: int| 0 <= x < y < b@.len() implies #[trigger] b@[x].id
            < #[trigger] b@[y].id by {
            assert(same_entry_ids(a@[x], b@[x]));
            assert(same_entry_ids(a@[y], b@[y]));
        }
        assert forall|i: int| 0 <= i < b@.len() implies #[trigger] fixed_entry_wf(
            b.fixed@[i],
            b.next_id,
        ) by {
            assert(same_entry_ids(a@[i], b@[i]));
            assert(fixed_entry_wf(a.fixed@[i], a.next_id));
            let ca = a@[i].children@;
            let cb = b@[i].children@;
            assert forall|x: int, y: int| 0 <= x < y < cb.len() implies #[trigger] cb[x].id
                < #[trigger] cb[y].id by {
                assert(ca[x].id == cb[x].id);
                assert(ca[y].id == cb[y].id);
            }
            assert forall|j: int| 0 <= j < cb.len() implies #[trigger] cb[j].id < b.next_id by {
                assert(ca[j].id == cb[j].id);
            }
        }
    }

    /// An empty registry.
    pub fn new() -> (g: Gears)
        ensures
            g.wf(),
            g@ == Seq::<FixedEntry>::empty(),
            g.next_id == 0,
    {
        Gears { fixed: Vec::new(), next_id: 0 }
    }

    /// The starting scene: one default fixed gear at the origin holding one
    /// default rotating gear.
    pub fn setup() -> (g: Gears)
        ensures
            g.wf(),
            g@.len() == 1,
            g@[0].gear == default_fixed_at(Point { x: 0, y: 0 }),
            g@[0].children@.len() == 1,
            is_default_rotating(g@[0].children@[0].gear),
    {
        let mut g = Gears::new();
        let fid = g.spawn_fixed(FixedGearBundle::default());
        let fid = fid.unwrap();
        assert(g@[0].id == fid);
        let gid = g.spawn_rotating(fid, RotatingGearBundle::default());
        assert(gid.is_some());
        g
    }

    /// The index of the fixed gear `fid`.
    pub fn position_of(&self, fid: u64) -> (r: Option<usize>)
        requires
            self.wf(),
        ensures
            r.is_some() ==> r->0 < self@.len() && self@[r->0 as int].id == fid,
            r.is_some() ==> forall|i: int|
                0 <= i < self@.len() && i != r->0 ==> #[trigger] self@[i].id != fid,
            r.is_none() ==> forall|i: int| 0 <= i < self@.len() ==> #[trigger] self@[i].id != fid,
    {
        let mut i: usize = 0;
        while i < self.fixed.len()
            invariant
                i <= self@.len(),
                fixed_ids_increasing(self@),
                forall|k: int| 0 <= k < i ==> #[trigger] self@[k].id != fid,
            decreases self@.len() - i,
        {
            if self.fixed[i].id == fid {
                return Some(i);
            }
            i = i + 1;
        }
        None
    }

    /// Adds a fixed gear with no rotating gears and returns its id; `None`
    /// once the ids are used up.
    pub fn spawn_fixed(&mut self, gear: FixedGearBundle) -> (r: Option<u64>)
        requires
            old(self).wf(),
        ensures
            final(self).wf(),
            r.is_some() <==> old(self).next_id < u64::MAX,
            r.is_some() ==> {
                &&& r->0 == old(self).next_id
                &&& final(self).next_id == old(self).next_id + 1
                &&& final(self)@.len() == old(self)@.len() + 1
                &&& final(self)@.subrange(0, old(self)@.len() as int) == old(self)@
                &&& final(self)@.last().id == r->0
                &&& final(self)@.last().gear == gear
                &&& final(self)@.last().children@.len() == 0
                &&& forall|i: int| 0 <= i < old(self)@.len() ==> #[trigger] old(self)@[i].id != r->0
            },
            r.is_none() ==> final(self)@ == old(self)@,
    {
        if self.next_id == u64::MAX {
            return None;
        }
        let id = self.next_id;
        let ghost before = self@;
        self.fixed.push(FixedEntry { id, gear, children: Vec::new() });
        self.next_id = id + 1;
        assert(self@.subrange(0, before.len() as int) =~= before);
        assert forall|i: int| 0 <= i < self@.len() implies #[trigger] fixed_entry_wf(
            self@[i],
            self.next_id,
        ) by {
            if i < before.len() {
                assert(fixed_entry_wf(before[i], id));
            }
        }
        assert forall|x: int, y: int| 0 <= x < y < self@.len() implies #[trigger] self@[x].id
            < #[trigger] self@[y].id by {
            assert(fixed_entry_wf(before[x], id));
            if y < before.len() {
                assert(before[x].id < before[y].id);
            }
        }
        assert forall|i: int| 0 <= i < before.len() implies #[trigger] before[i].id != id by {
            assert(fixed_entry_wf(before[i], id));
        }
        Some(id)
    }

    /// Attaches a rotating gear to the fixed gear `fid` and returns its id;
    /// `None` where there is no such fixed gear or the ids are used up.
    pub fn spawn_rotating(&mut self, fid: u64, gear: RotatingGearBundle) -> (r: Option<u64>)
        requires
            old(self).wf(),
        ensures
            final(self).wf(),
            r.is_some() <==> old(self).next_id < u64::MAX && exists|i: int|
                0 <= i < old(self)@.len() && #[trigger] old(self)@[i].id == fid,
            r.is_none() ==> final(self)@ == old(self)@,
            r.is_some() ==> final(self).next_id == old(self).next_id + 1,
            r.is_some() ==> r->0 == old(self).next_id && exists|i: int|
                {
                    &&& 0 <= i < old(self)@.len()
                    &&& #[trigger] old(self)@[i].id == fid
                    &&& final(self)@ == old(self)@.update(i, final(self)@[i])
                    &&& final(self)@[i].id == fid
                    &&& final(self)@[i].gear == old(self)@[i].gear
                    &&& final(self)@[i].children@ == old(self)@[i].children@.push(
                        RotatingEntry { id: r->0, gear },
                    )
                },
    {
        if self.next_id == u64::MAX {
            return None;
        }
        match self.position_of(fid) {
            None => None,
            Some(i) => {
                let id = self.next_id;
                let ghost before = *self;
                self.fixed[i].children.push(RotatingEntry { id, gear });
                self.next_id = id + 1;
                assert(self@ =~= before@.update(i as int, self@[i as int]));
                assert forall|k: int| 0 <= k < self@.len() implies #[trigger] fixed_entry_wf(
                    self@[k],
                    self.next_id,
                ) by {
                    assert(fixed_entry_wf(before@[k], before.next_id));
                    if k == i {
                        let cs = self@[k].children@;
                        assert forall|a: int, b: int| 0 <= a < b < cs.len() implies #[trigger] cs[a].id
                            < #[trigger] cs[b].id by {
                            if b == cs.len() - 1 {
                                assert(cs[a].id < before.next_id);
                            }
                        }
                    }
                }
                assert forall|x: int, y: int| 0 <= x < y < self@.len() implies #[trigger] self@[x].id
                    < #[trigger] self@[y].id by {
                    assert(before@[x].id < before@[y].id);
                }
                Some(id)
            },
        }
    }

    /// Applies `entry_step` to every fixed gear: keeps `wf`.
    pub proof fn lemma_children_step_wf(a: Gears, b: Gears, step: ChildStep)
        requires
            a.wf(),
            a.next_id == b.next_id,
            children_step(a@, b@, step),
        ensures
            b.wf(),
    {
        lemma_children_step_same_ids(a@, b@, step);
        Gears::lemma_same_ids_wf(a, b);
    }

    /// Empties the trace of the rotating gear `gid` of the fixed gear `fid`;
    /// every other attribute of every gear stays.
    pub fn clear_line(&mut self, fid: u64, gid: u64)
        requires
            old(self).wf(),
        ensures
            final(self).wf(),
            final(self).next_id == old(self).next_id,
            children_step(old(self)@, final(self)@, one_gear_step(fid, gid, clear_change())),
    {
        let ghost start = *self;
        if let Some(i) = self.position_of(fid) {
            if let Some(j) = self.fixed[i].child_position(gid) {
                self.fixed[i].children[j].gear.line = Line(Vec::new());
                assert(fixed_entry_wf(start@[i as int], start.next_id));
            }
        }
        assert(children_step(start@, self@, one_gear_step(fid, gid, clear_change()))) by {
            assert forall|i: int| 0 <= i < start@.len() implies #[trigger] entry_step(
                start@[i],
                self@[i],
                one_gear_step(fid, gid, clear_change()),
            ) by {
                assert(fixed_entry_wf(start@[i], start.next_id));
            }
        }
        proof {
            Gears::lemma_children_step_wf(start, *self, one_gear_step(fid, gid, clear_change()));
        }
    }

    /// Sets the pause flag of the rotating gear `gid` of the fixed gear `fid`.
    pub fn set_paused(&mut self, fid: u64, gid: u64, paused: bool)
        requires
            old(self).wf(),
        ensures
            final(self).wf(),
            final(self).next_id == old(self).next_id,
            children_step(old(self)@, final(self)@, one_gear_step(fid, gid, pause_change(paused))),
    {
        let ghost start = *self;
        if let Some(i) = self.position_of(fid) {
            if let Some(j) = self.fixed[i].child_position(gid) {
                self.fixed[i].children[j].gear.paused = paused;
                assert(fixed_entry_wf(start@[i as int], start.next_id));
            }
        }
        assert(children_step(start@, self@, one_gear_step(fid, gid, pause_change(paused)))) by {
            assert forall|i: int| 0 <= i < start@.len() implies #[trigger] entry_step(
                start@[i],
                self@[i],
                one_gear_step(fid, gid, pause_change(paused)),
            ) by {
                assert(fixed_entry_wf(start@[i], start.next_id));
            }
        }
        proof {
            Gears::lemma_children_step_wf(start, *self, one_gear_step(fid, gid, pause_change(paused)));
        }
    }

    /// Empties every trace.
    pub fn clear_all(&mut self)
        requires
            old(self).wf(),
        ensures
            final(self).wf(),
            final(self).next_id == old(self).next_id,
            children_step(old(self)@, final(self)@, clear_all_step()),
    {
        let ghost start = *self;
        let n = self.fixed.len();
        let mut i: usize = 0;
        while i < n
            invariant
                n == self@.len(),
                n == start@.len(),
                i <= n,
                self.next_id == start.next_id,
                forall|k: int| 0 <= k < i ==> #[trigger] entry_step(start@[k], self@[k], clear_all_step()),
                forall|k: int| i <= k < n ==> #[trigger] self@[k] == start@[k],
            decreases n - i,
        {
            self.fixed[i].clear_lines();
            i = i + 1;
        }
        proof {
            Gears::lemma_children_step_wf(start, *self, clear_all_step());
        }
    }

    /// Removes the rotating gear `gid` from the fixed gear `fid`; the fixed gear
    /// and every other gear stay as they are.
    pub fn despawn_rotating(&mut self, fid: u64, gid: u64)
        requires
            old(self).wf(),
        ensures
            final(self).wf(),
            final(self).next_id == old(self).next_id,
            final(self)@.len() == old(self)@.len(),
            forall|i: int|
                0 <= i < old(self)@.len() && #[trigger] old(self)@[i].id != fid ==> final(self)@[i]
                    == old(self)@[i],
            forall|i: int|
                0 <= i < old(self)@.len() && #[trigger] old(self)@[i].id == fid ==> {
                    &&& final(self)@[i].id == fid
                    &&& final(self)@[i].gear == old(self)@[i].gear
                    &&& forall|j: int|
                        0 <= j < final(self)@[i].children@.len() ==> #[trigger] final(self)@[i].children@[j].id != gid
                    &&& (forall|j: int|
                        0 <= j < old(self)@[i].children@.len()
                            ==> #[trigger] old(self)@[i].children@[j].id != gid) ==> final(self)@[i]
                        == old(self)@[i]
                    &&& forall|j: int|
                        0 <= j < old(self)@[i].children@.len()
                            && #[trigger] old(self)@[i].children@[j].id == gid ==> final(self)@[i].children@ == old(self)@[i].children@.remove(j)
                },
    {
        let ghost start = *self;
        if let Some(i) = self.position_of(fid) {
            assert(fixed_entry_wf(start@[i as int], start.next_id));
            if let Some(j) = self.fixed[i].child_position(gid) {
                let ghost cs = self@[i as int].children@;
                self.fixed[i].children.remove(j);
                proof {
                    cs.remove_ensures(j as int);
                }
                let ghost ns = self@[i as int].children@;
                assert forall|x: int, y: int| 0 <= x < y < ns.len() implies #[trigger] ns[x].id
                    < #[trigger] ns[y].id by {
                    let xx = if x < j {
                        x
                    } else {
                        x + 1
                    };
                    let yy = if y < j {
                        y
                    } else {
                        y + 1
                    };
                    assert(cs[xx].id < cs[yy].id);
                }
                assert forall|k: int| 0 <= k < ns.len() implies #[trigger] ns[k].id != gid by {
                    if k < j {
                        assert(cs[k].id != gid);
                    } else {
                        assert(cs[k + 1].id != gid);
                    }
                }
                assert forall|k: int| 0 <= k < ns.len() implies #[trigger] ns[k].id < self.next_id by {
                    if k < j {
                        assert(cs[k].id < self.next_id);
                    } else {
                        assert(cs[k + 1].id < self.next_id);
                    }
                }
                assert(fixed_entry_wf(self@[i as int], self.next_id));
            }
        }
        assert forall|k: int| 0 <= k < self@.len() implies #[trigger] fixed_entry_wf(
            self@[k],
            self.next_id,
        ) by {
            assert(fixed_entry_wf(start@[k], start.next_id));
        }
        assert forall|x: int, y: int| 0 <= x < y < self@.len() implies #[trigger] self@[x].id
            < #[trigger] self@[y].id by {
            assert(start@[x].id < start@[y].id);
        }
        assert(self.wf());
    }

    /// Replaces the user-set parameters of the rotating gear `gid` of the fixed
    /// gear `fid`: speed, radius, pen distance and colors.
    pub fn set_gear_params(&mut self, fid: u64, gid: u64, params: GearParams)
        requires
            old(self).wf(),
        ensures
            final(self).wf(),
            final(self).next_id == old(self).next_id,
            children_step(old(self)@, final(self)@, one_gear_step(fid, gid, params_change(params))),
    {
        let ghost start = *self;
        if let Some(i) = self.position_of(fid) {
            if let Some(j) = self.fixed[i].child_position(gid) {
                self.fixed[i].children[j].gear.speed = params.speed;
                self.fixed[i].children[j].gear.radius = params.radius;
                self.fixed[i].children[j].gear.pen = params.pen;
                self.fixed[i].children[j].gear.line_color = params.line_color;
                self.fixed[i].children[j].gear.gear_color = params.gear_color;
                assert(fixed_entry_wf(start@[i as int], start.next_id));
            }
        }
        assert(children_step(start@, self@, one_gear_step(fid, gid, params_change(params)))) by {
            assert forall|i: int| 0 <= i < start@.len() implies #[trigger] entry_step(
                start@[i],
                self@[i],
                one_gear_step(fid, gid, params_change(params)),
            ) by {
                assert(fixed_entry_wf(start@[i], start.next_id));
            }
        }
        proof {
            Gears::lemma_children_step_wf(start, *self, one_gear_step(fid, gid, params_change(params)));
        }
    }

    /// Replaces the radius and color of the fixed gear `fid`.
    pub fn set_fixed_params(&mut self, fid: u64, radius: i64, gear_color: GearColor)
        requires
            old(self).wf(),
        ensures
            final(self).wf(),
            final(self).next_id == old(self).next_id,
            final(self)@.len() == old(self)@.len(),
            forall|i: int|
                0 <= i < old(self)@.len() ==> #[trigger] final(self)@[i] == if old(self)@[i].id
                    == fid {
                    FixedEntry {
                        gear: FixedGearBundle { radius, gear_color, ..old(self)@[i].gear },
                        ..old(self)@[i]
                    }
                } else {
                    old(self)@[i]
                },
    {
        let ghost start = *self;
        if let Some(i) = self.position_of(fid) {
            self.fixed[i].gear.radius = radius;
            self.fixed[i].gear.gear_color = gear_color;
        }
        assert forall|k: int| 0 <= k < self@.len() implies #[trigger] fixed_entry_wf(
            self@[k],
            self.next_id,
        ) by {
            assert(fixed_entry_wf(start@[k], start.next_id));
        }
        assert forall|x: int, y: int| 0 <= x < y < self@.len() implies #[trigger] self@[x].id
            < #[trigger] self@[y].id by {
            assert(start@[x].id < start@[y].id);
        }
    }

    /// Removes the fixed gear `fid` together with every rotating gear it owns.
    pub fn despawn_fixed(&mut self, fid: u64)
        requires
            old(self).wf(),
        ensures
            final(self).wf(),
            forall|i: int| 0 <= i < final(self)@.len() ==> #[trigger] final(self)@[i].id != fid,
            (forall|i: int| 0 <= i < old(self)@.len() ==> #[trigger] old(self)@[i].id != fid)
                ==> final(self)@ == old(self)@,
            forall|i: int|
                0 <= i < old(self)@.len() && #[trigger] old(self)@[i].id == fid
                    ==> final(self)@ == old(self)@.remove(i),
    {
        match self.position_of(fid) {
            None => {},
            Some(i) => {
                let ghost before = self@;
                self.fixed.remove(i);
                proof {
                    before.remove_ensures(i as int);
                }
                assert forall|k: int| 0 <= k < self@.len() implies #[trigger] fixed_entry_wf(
                    self@[k],
                    self.next_id,
                ) by {
                    if k < i {
                        assert(fixed_entry_wf(before[k], self.next_id));
                    } else {
                        assert(fixed_entry_wf(before[k + 1], self.next_id));
                    }
                }
                assert forall|x: int, y: int| 0 <= x < y < self@.len() implies #[trigger] self@[x].id
                    < #[trigger] self@[y].id by {
                    let xx = if x < i {
                        x
                    } else {
                        x + 1
                    };
                    let yy = if y < i {
                        y
                    } else {
                        y + 1
                    };
                    assert(before[xx].id < before[yy].id);
                }
                assert forall|k: int| 0 <= k < self@.len() implies #[trigger] self@[k].id != fid by {
                    if k < i {
                        assert(before[k].id != fid);
                    } else {
                        assert(before[k + 1].id != fid);
                    }
                }
            },
        }
    }
}

impl FixedEntry {
    /// The index of the rotating gear `gid` among this gear's children.
    pub fn child_position(&self, gid: u64) -> (r: Option<usize>)
        ensures
            r.is_some() ==> r->0 < self.children@.len() && self.children@[r->0 as int].id == gid,
            r.is_some() && rotating_ids_increasing(self.children@) ==> forall|j: int|
                0 <= j < self.children@.len() && j != r->0 ==> #[trigger] self.children@[j].id
                    != gid,
            r.is_none() ==> forall|j: int|
                0 <= j < self.children@.len() ==> #[trigger] self.children@[j].id != gid,
    {
        let mut j: usize = 0;
        while j < self.children.len()
            invariant
                j <= self.children@.len(),
                forall|k: int| 0 <= k < j ==> #[trigger] self.children@[k].id != gid,
            decreases self.children@.len() - j,
        {
            if self.children[j].id == gid {
                return Some(j);
            }
            j = j + 1;
        }
        None
    }
}

} // verus!
