//! Pointer-driven dragging of fixed gears: hover resolution, the drag
//! operation with its grab offset, pausing the dragged gear's rotating gears,
//! and snapping onto a nearby fixed gear when the drag ends.
use crate::geometry::{add_spec, dist_sq, fits_i64, sub_spec, Point, LENGTH_UNIT};
use crate::registry::{
    children_step, entry_step, fixed_entry_wf, fixed_ids_increasing, ChildStep, FixedEntry, Gears,
    RotatingEntry,
};
use crate::spiro::{FixedGearBundle, RotatingGearBundle};
use vstd::prelude::*;

verus! {

/// A drag that ends closer than this to another fixed gear snaps onto it.
pub const SNAP_DIST: i64 = 10 * LENGTH_UNIT;

/// The fixed gear under the pointer, and the offset from the pointer to its
/// center.
#[derive(Clone, Copy, Debug, PartialEq, Eq, Structural)]
pub struct Hovered {
    pub entity: u64,
    pub offset: Point,
}

/// The fixed gear being dragged, and the offset from the pointer to its center
/// taken when the drag started.
#[derive(Clone, Copy, Debug, PartialEq, Eq, Structural)]
pub struct Dragged {
    pub entity: u64,
    pub offset: Point,
}

/// Sent when the drag of a fixed gear ends.
#[derive(Clone, Copy, Debug, PartialEq, Eq, Structural)]
pub struct DragFinished {
    pub entity: u64,
}

/// The pointer icon that reflects the drag state.
#[derive(Clone, Copy, Debug, PartialEq, Eq, Structural)]
pub enum CursorIcon {
    Grab,
    Grabbing,
}

/// The state of the pointer: what it hovers, recomputed every frame, and what
/// it drags, from press to release.
#[derive(Clone, Copy, Debug, PartialEq, Eq, Structural)]
pub struct Pointer {
    pub hovered: Option<Hovered>,
    pub dragged: Option<Dragged>,
}

/// Whether the pointer at `c` is over the fixed gear `e`: `e` is draggable,
/// `c` lies strictly inside its circle, and the offset is representable.
pub open spec fn is_hit(e: FixedEntry, c: Point) -> bool {
    &&& e.gear.draggable
    &&& e.gear.radius > 0
    &&& dist_sq(c, e.gear.position) < e.gear.radius * e.gear.radius
    &&& fits_i64(e.gear.position.x - c.x)
    &&& fits_i64(e.gear.position.y - c.y)
}

/// The first fixed gear from index `k` on that the pointer at `c` is over.
pub open spec fn first_hit(g: Seq<FixedEntry>, c: Point, k: int) -> Option<Hovered>
    decreases g.len() - k,
{
    if k < 0 || k >= g.len() {
        None
    } else if is_hit(g[k], c) {
        Some(Hovered { entity: g[k].id, offset: sub_spec(g[k].gear.position, c) })
    } else {
        first_hit(g, c, k + 1)
    }
}

/// What the pointer hovers: nothing without a pointer position.
pub open spec fn hover_of(g: Seq<FixedEntry>, cursor: Option<Point>) -> Option<Hovered> {
    match cursor {
        Some(c) => first_hit(g, c, 0),
        None => None,
    }
}

/// The rotating gears of the fixed gear `fid` get the pause flag `paused`;
/// nothing else changes.
pub open spec fn pause_step(fid: u64, paused: bool) -> ChildStep {
    |f: FixedEntry, c: RotatingEntry, n: RotatingEntry|
        n == if f.id == fid {
            RotatingEntry { gear: RotatingGearBundle { paused, ..c.gear }, ..c }
        } else {
            c
        }
}

/// `e` with its fixed gear's center at `p`.
pub open spec fn moved_entry(e: FixedEntry, p: Point) -> FixedEntry {
    FixedEntry { gear: FixedGearBundle { position: p, ..e.gear }, ..e }
}

/// The fixed gear `fid` moves to `to`, where `to` is given; nothing else
/// changes.
pub open spec fn moved_to(a: Seq<FixedEntry>, b: Seq<FixedEntry>, fid: u64, to: Option<Point>) -> bool {
    &&& a.len() == b.len()
    &&& forall|k: int|
        0 <= k < a.len() ==> #[trigger] b[k] == if a[k].id == fid && to.is_some() {
            moved_entry(a[k], to->0)
        } else {
            a[k]
        }
}

/// Among the fixed gears `g[0..n]` other than `fid`, the center nearest to
/// `pos` that lies closer than `SNAP_DIST`; the earliest among equals.
pub open spec fn nearest_within(g: Seq<FixedEntry>, n: int, fid: u64, pos: Point) -> Option<Point>
    decreases n,
{
    if n <= 0 {
        None
    } else {
        let prev = nearest_within(g, n - 1, fid, pos);
        let t = g[n - 1].gear.position;
        if g[n - 1].id != fid && dist_sq(pos, t) < SNAP_DIST * SNAP_DIST && (prev.is_none()
            || dist_sq(pos, t) < dist_sq(pos, prev->0)) {
            Some(t)
        } else {
            prev
        }
    }
}

/// Where the fixed gear at index `i` snaps to when its drag ends.
pub open spec fn snap_target(g: Seq<FixedEntry>, i: int) -> Option<Point> {
    nearest_within(g, g.len() as int, g[i].id, g[i].gear.position)
}

/// The fixed gear at index `k` after the drag of `fid` ended, before its
/// rotating gears resume: moved to its snap target where it is `fid` and has
/// one.
pub open spec fn snapped_entry(a: Seq<FixedEntry>, k: int, fid: u64) -> FixedEntry {
    if a[k].id == fid && snap_target(a, k).is_some() {
        moved_entry(a[k], snap_target(a, k)->0)
    } else {
        a[k]
    }
}

/// The end of a drag of `fid`: the fixed gear `fid` snaps onto its nearest
/// neighbour within `SNAP_DIST`, if any, and its rotating gears resume.
pub open spec fn drag_ended(a: Seq<FixedEntry>, b: Seq<FixedEntry>, fid: u64) -> bool {
    &&& a.len() == b.len()
    &&& forall|k: int|
        0 <= k < a.len() ==> #[trigger] entry_step(snapped_entry(a, k, fid), b[k], pause_step(fid, false))
}

impl FixedEntry {
    /// Sets the pause flag of every child.
    pub fn set_children_paused(&mut self, paused: bool)
        ensures
            entry_step(*old(self), *final(self), pause_step(old(self).id, paused)),
    {
        let ghost start = *self;
        let n = self.children.len();
        let mut j: usize = 0;
        while j < n
            invariant
                n == self.children@.len(),
                n == start.children@.len(),
                j <= n,
                self.id == start.id,
                self.gear == start.gear,
                forall|k: int|
                    #![trigger self.children@[k]]
                    0 <= k < j ==> self.children@[k].id == start.children@[k].id && (pause_step(
                        start.id,
                        paused,
                    ))(start, start.children@[k], self.children@[k]),
                forall|k: int| j <= k < n ==> #[trigger] self.children@[k] == start.children@[k],
            decreases n - j,
        {
            let ghost prev = self.children@;
            self.children[j].gear.paused = paused;
            assert(forall|k: int| 0 <= k < n && k != j ==> self.children@[k] == prev[k]);
            j = j + 1;
        }
    }
}

impl Gears {
    /// Pauses every rotating gear of the fixed gear `fid`: its drag has started.
    pub fn drag_start(&mut self, fid: u64)
        requires
            old(self).wf(),
        ensures
            final(self).wf(),
            final(self).next_id == old(self).next_id,
            children_step(old(self)@, final(self)@, pause_step(fid, true)),
    {
        let ghost start = *self;
        if let Some(i) = self.position_of(fid) {
            self.fixed[i].set_children_paused(true);
        }
        assert(children_step(start@, self@, pause_step(fid, true))) by {
            assert forall|k: int| 0 <= k < start@.len() implies #[trigger] entry_step(
                start@[k],
                self@[k],
                pause_step(fid, true),
            ) by {}
        }
        proof {
            Gears::lemma_children_step_wf(start, *self, pause_step(fid, true));
        }
    }

    /// Moves the fixed gear `fid` to `to`.
    pub fn move_fixed(&mut self, fid: u64, to: Point)
        requires
            old(self).wf(),
        ensures
            final(self).wf(),
            final(self).next_id == old(self).next_id,
            moved_to(old(self)@, final(self)@, fid, Some(to)),
    {
        let ghost start = *self;
        if let Some(i) = self.position_of(fid) {
            self.fixed[i].gear.position = to;
            assert(self@ =~= start@.update(i as int, moved_entry(start@[i as int], to)));
        }
        assert forall|k: int| 0 <= k < self@.len() implies #[trigger] fixed_entry_wf(
            self@[k],
            self.next_id,
        ) by {
            assert(fixed_entry_wf(start@[k], start.next_id));
        }
        assert forall|x: int, y: int| 0 <= x < y < self@.len() implies #[trigger] self@[x].id
            < #[trigger] self@[y].id by {
            assert(start@[x].id < start@[y].id);
        }
    }

    /// The nearest other fixed gear within `SNAP_DIST` of `pos`, `fid` being
    /// the gear that moves.
    fn nearest_fixed(&self, fid: u64, pos: Point) -> (r: Option<Point>)
        ensures
            r == nearest_within(self@, self@.len() as int, fid, pos),
    {
        let mut best: Option<Point> = None;
        let mut best_d: i128 = 0;
        let mut k: usize = 0;
        while k < self.fixed.len()
            invariant
                k <= self@.len(),
                best == nearest_within(self@, k as int, fid, pos),
                best.is_some() ==> best_d == dist_sq(pos, best->0),
            decreases self@.len() - k,
        {
            let e = &self.fixed[k];
            if e.id != fid {
                if let Some(d) = pos.dist_sq_below(e.gear.position, SNAP_DIST) {
                    if best.is_none() || d < best_d {
                        best = Some(e.gear.position);
                        best_d = d;
                    }
                }
            }
            k = k + 1;
        }
        best
    }

    /// Ends the drag of the fixed gear `fid`: snaps it onto the nearest other
    /// fixed gear closer than `SNAP_DIST`, if any (the earliest among equally
    /// near ones), and resumes all of its rotating gears.
    pub fn drag_end(&mut self, fid: u64)
        requires
            old(self).wf(),
        ensures
            final(self).wf(),
            final(self).next_id == old(self).next_id,
            drag_ended(old(self)@, final(self)@, fid),
    {
        let ghost start = *self;
        if let Some(i) = self.position_of(fid) {
            let pos = self.fixed[i].gear.position;
            let target = self.nearest_fixed(fid, pos);
            assert(target == snap_target(start@, i as int));
            if let Some(p) = target {
                self.fixed[i].gear.position = p;
            }
            self.fixed[i].set_children_paused(false);
            assert forall|k: int| 0 <= k < start@.len() implies #[trigger] entry_step(
                snapped_entry(start@, k, fid),
                self@[k],
                pause_step(fid, false),
            ) by {
                if k == i {
                } else {
                    assert(start@[k].id != fid);
                    assert(self@[k] == start@[k]);
                }
            }
        } else {
            assert forall|k: int| 0 <= k < start@.len() implies #[trigger] entry_step(
                snapped_entry(start@, k, fid),
                self@[k],
                pause_step(fid, false),
            ) by {
                assert(start@[k].id != fid);
            }
        }
        assert forall|k: int| 0 <= k < self@.len() implies #[trigger] fixed_entry_wf(
            self@[k],
            self.next_id,
        ) by {
            assert(fixed_entry_wf(start@[k], start.next_id));
            let a = start@[k];
            let b = self@[k];
            assert(entry_step(snapped_entry(start@, k, fid), b, pause_step(fid, false)));
            assert forall|x: int, y: int| 0 <= x < y < b.children@.len() implies #[trigger] b.children@[x].id
                < #[trigger] b.children@[y].id by {
                assert(a.children@[x].id < a.children@[y].id);
            }
            assert forall|j: int| 0 <= j < b.children@.len() implies #[trigger] b.children@[j].id
                < self.next_id by {
                assert(a.children@[j].id < self.next_id);
            }
        }
        assert forall|x: int, y: int| 0 <= x < y < self@.len() implies #[trigger] self@[x].id
            < #[trigger] self@[y].id by {
            assert(start@[x].id < start@[y].id);
            assert(entry_step(
                snapped_entry(start@, x, fid),
                self@[x],
                pause_step(fid, false),
            ));
            assert(entry_step(
                snapped_entry(start@, y, fid),
                self@[y],
                pause_step(fid, false),
            ));
        }
        assert(fixed_ids_increasing(self@));
        assert(self.wf());
    }
}

/// A fixed gear other than the one at `i` whose center lies closer than
/// `SNAP_DIST` to that of `i`.
pub open spec fn snap_candidate(g: Seq<FixedEntry>, i: int, k: int) -> bool {
    &&& 0 <= k < g.len()
    &&& g[k].id != g[i].id
    &&& dist_sq(g[i].gear.position, g[k].gear.position) < SNAP_DIST * SNAP_DIST
}

proof fn lemma_nearest_within(g: Seq<FixedEntry>, n: int, fid: u64, pos: Point)
    requires
        0 <= n <= g.len(),
    ensures
        nearest_within(g, n, fid, pos).is_none() <==> forall|m: int|
            0 <= m < n ==> !(#[trigger] g[m].id != fid && dist_sq(pos, g[m].gear.position)
                < SNAP_DIST * SNAP_DIST),
        nearest_within(g, n, fid, pos).is_some() ==> exists|k: int|
            {
                &&& 0 <= k < n
                &&& #[trigger] g[k].id != fid
                &&& dist_sq(pos, g[k].gear.position) < SNAP_DIST * SNAP_DIST
                &&& g[k].gear.position == nearest_within(g, n, fid, pos)->0
            },
        nearest_within(g, n, fid, pos).is_some() ==> forall|m: int|
            0 <= m < n && #[trigger] g[m].id != fid && dist_sq(pos, g[m].gear.position)
                < SNAP_DIST * SNAP_DIST ==> dist_sq(pos, nearest_within(g, n, fid, pos)->0)
                <= dist_sq(pos, g[m].gear.position),
    decreases n,
{
    if n > 0 {
        lemma_nearest_within(g, n - 1, fid, pos);
        let prev = nearest_within(g, n - 1, fid, pos);
        if prev.is_some() {
            let k = choose|k: int|
                {
                    &&& 0 <= k < n - 1
                    &&& #[trigger] g[k].id != fid
                    &&& dist_sq(pos, g[k].gear.position) < SNAP_DIST * SNAP_DIST
                    &&& g[k].gear.position == prev->0
                };
            assert(g[k].id != fid);
        }
        if nearest_within(g, n, fid, pos) != prev {
            assert(g[n - 1].id != fid);
        }
    }
}

/// A drag that ends closer than `SNAP_DIST` to other fixed gears puts the
/// dragged gear exactly on the center of the nearest of them; one that ends
/// near none leaves it exactly where the drag put it.
pub proof fn lemma_snap_onto_neighbour(a: Seq<FixedEntry>, b: Seq<FixedEntry>, i: int)
    requires
        fixed_ids_increasing(a),
        0 <= i < a.len(),
        drag_ended(a, b, a[i].id),
    ensures
        (exists|k: int| snap_candidate(a, i, k)) ==> exists|k: int|
            {
                &&& #[trigger] snap_candidate(a, i, k)
                &&& b[i].gear.position == a[k].gear.position
                &&& forall|m: int|
                    #[trigger] snap_candidate(a, i, m) ==> dist_sq(
                        a[i].gear.position,
                        a[k].gear.position,
                    ) <= dist_sq(a[i].gear.position, a[m].gear.position)
            },
        (forall|k: int| !snap_candidate(a, i, k)) ==> b[i].gear.position == a[i].gear.position,
{
    let fid = a[i].id;
    let pos = a[i].gear.position;
    lemma_nearest_within(a, a.len() as int, fid, pos);
    assert(entry_step(snapped_entry(a, i, fid), b[i], pause_step(fid, false)));
    if exists|k: int| snap_candidate(a, i, k) {
        let k0 = choose|k: int| snap_candidate(a, i, k);
        assert(a[k0].id != fid);
        let k = choose|k: int|
            {
                &&& 0 <= k < a.len()
                &&& #[trigger] a[k].id != fid
                &&& dist_sq(pos, a[k].gear.position) < SNAP_DIST * SNAP_DIST
                &&& a[k].gear.position == nearest_within(a, a.len() as int, fid, pos)->0
            };
        assert(snap_candidate(a, i, k));
        assert forall|m: int| #[trigger] snap_candidate(a, i, m) implies dist_sq(
            a[i].gear.position,
            a[k].gear.position,
        ) <= dist_sq(a[i].gear.position, a[m].gear.position) by {
            assert(a[m].id != fid);
        }
    } else {
        assert forall|m: int| 0 <= m < a.len() implies !(#[trigger] a[m].id != fid && dist_sq(
            pos,
            a[m].gear.position,
        ) < SNAP_DIST * SNAP_DIST) by {
            assert(!snap_candidate(a, i, m));
        }
    }
}

proof fn lemma_first_hit_is_a_gear(g: Seq<FixedEntry>, c: Point, k: int)
    requires
        0 <= k,
        first_hit(g, c, k).is_some(),
    ensures
        exists|m: int|
            k <= m < g.len() && #[trigger] g[m].id == first_hit(g, c, k)->0.entity
                && first_hit(g, c, k)->0.offset == sub_spec(g[m].gear.position, c),
    decreases g.len() - k,
{
    if k < g.len() && !is_hit(g[k], c) {
        lemma_first_hit_is_a_gear(g, c, k + 1);
    }
}

/// A drag keeps the grab offset: a drag started on the hovered gear at pointer
/// position `c0`, with the gear's center at `p0`, puts that center at
/// `c1 + (p0 - c0)` when the pointer moves to `c1`.
pub proof fn lemma_drag_keeps_grab_offset(
    g0: Seq<FixedEntry>,
    g1: Seq<FixedEntry>,
    g2: Seq<FixedEntry>,
    c0: Point,
    c1: Point,
    d: Dragged,
    i: int,
)
    requires
        fixed_ids_increasing(g0),
        0 <= i < g0.len(),
        hover_of(g0, Some(c0)) == Some(Hovered { entity: d.entity, offset: d.offset }),
        g0[i].id == d.entity,
        children_step(g0, g1, pause_step(d.entity, true)),
        moved_to(g1, g2, d.entity, Some(add_spec(c1, d.offset))),
    ensures
        d.offset == sub_spec(g0[i].gear.position, c0),
        g2[i].gear.position == add_spec(c1, sub_spec(g0[i].gear.position, c0)),
{
    lemma_first_hit_is_a_gear(g0, c0, 0);
    let m = choose|m: int|
        0 <= m < g0.len() && #[trigger] g0[m].id == d.entity && d.offset == sub_spec(
            g0[m].gear.position,
            c0,
        );
    if m < i {
        assert(g0[m].id < g0[i].id);
    } else if m > i {
        assert(g0[i].id < g0[m].id);
    }
    assert(entry_step(g0[i], g1[i], pause_step(d.entity, true)));
}

/// The first draggable fixed gear, in registry order, whose circle holds `c`.
fn hit_test(c: Point, gears: &Gears) -> (r: Option<Hovered>)
    ensures
        r == first_hit(gears@, c, 0),
{
    let mut k: usize = 0;
    while k < gears.fixed.len()
        invariant
            k <= gears@.len(),
            first_hit(gears@, c, 0) == first_hit(gears@, c, k as int),
        decreases gears@.len() - k,
    {
        let e = &gears.fixed[k];
        if e.gear.draggable {
            if let Some(_) = c.dist_sq_below(e.gear.position, e.gear.radius) {
                if let Some(offset) = e.gear.position.checked_sub(c) {
                    return Some(Hovered { entity: e.id, offset });
                }
            }
        }
        k = k + 1;
    }
    None
}

impl Pointer {
    /// No hover, no drag.
    pub fn new() -> (p: Pointer)
        ensures
            p.hovered.is_none(),
            p.dragged.is_none(),
    {
        Pointer { hovered: None, dragged: None }
    }

    /// Recomputes what the pointer at `cursor` hovers: the first draggable
    /// fixed gear, in registry order, whose circle holds the pointer; nothing
    /// without a pointer position. The drag is left as it is.
    pub fn hovered(&mut self, cursor: Option<Point>, gears: &Gears)
        ensures
            final(self).hovered == hover_of(gears@, cursor),
            final(self).dragged == old(self).dragged,
    {
        self.hovered = match cursor {
            Some(c) => hit_test(c, gears),
            None => None,
        };
    }

    /// On a press: starts dragging the hovered fixed gear, keeping the grab
    /// offset, and pauses its rotating gears. Without a hovered gear nothing
    /// happens.
    pub fn start_drag(&mut self, gears: &mut Gears)
        requires
            old(gears).wf(),
        ensures
            final(gears).wf(),
            final(gears).next_id == old(gears).next_id,
            final(self).hovered == old(self).hovered,
            match old(self).hovered {
                Some(h) => {
                    &&& final(self).dragged == Some(Dragged { entity: h.entity, offset: h.offset })
                    &&& children_step(old(gears)@, final(gears)@, pause_step(h.entity, true))
                },
                None => final(self).dragged == old(self).dragged && final(gears)@ == old(gears)@,
            },
    {
        if let Some(h) = self.hovered {
            self.dragged = Some(Dragged { entity: h.entity, offset: h.offset });
            gears.drag_start(h.entity);
        }
    }

    /// On a release: ends the drag, if any, snapping the dragged gear and
    /// resuming its rotating gears, and reports which gear it was.
    pub fn end_drag(&mut self, gears: &mut Gears) -> (r: Option<DragFinished>)
        requires
            old(gears).wf(),
        ensures
            final(gears).wf(),
            final(gears).next_id == old(gears).next_id,
            final(self).hovered == old(self).hovered,
            final(self).dragged.is_none(),
            match old(self).dragged {
                Some(d) => {
                    &&& r == Some(DragFinished { entity: d.entity })
                    &&& drag_ended(old(gears)@, final(gears)@, d.entity)
                },
                None => r.is_none() && final(gears)@ == old(gears)@,
            },
    {
        match self.dragged {
            Some(d) => {
                self.dragged = None;
                gears.drag_end(d.entity);
                Some(DragFinished { entity: d.entity })
            },
            None => None,
        }
    }

    /// While dragging: moves the dragged gear to the pointer plus the grab
    /// offset. Without a pointer position, or where that sum leaves the
    /// coordinate range, the gear stays where it is.
    pub fn drag(&self, cursor: Option<Point>, gears: &mut Gears)
        requires
            old(gears).wf(),
        ensures
            final(gears).wf(),
            final(gears).next_id == old(gears).next_id,
            match (self.dragged, cursor) {
                (Some(d), Some(c)) => if fits_i64(c.x + d.offset.x) && fits_i64(c.y + d.offset.y) {
                    moved_to(old(gears)@, final(gears)@, d.entity, Some(add_spec(c, d.offset)))
                } else {
                    final(gears)@ == old(gears)@
                },
                _ => final(gears)@ == old(gears)@,
            },
    {
        if let (Some(d), Some(c)) = (self.dragged, cursor) {
            if let Some(to) = c.checked_add(d.offset) {
                gears.move_fixed(d.entity, to);
            }
        }
    }

    /// The pointer icon: grabbing while dragging, grab while hovering a gear.
    pub fn cursor(&self) -> (r: Option<CursorIcon>)
        ensures
            r == if self.dragged.is_some() {
                Some(CursorIcon::Grabbing)
            } else if self.hovered.is_some() {
                Some(CursorIcon::Grab)
            } else {
                None
            },
    {
        if self.dragged.is_some() {
            Some(CursorIcon::Grabbing)
        } else if self.hovered.is_some() {
            Some(CursorIcon::Grab)
        } else {
            None
        }
    }
}

} // verus!
