//! The simulated world: an arena of bodies addressed by stable integer
//! handles, with structural changes (spawns and despawns) collected during
//! a tick and applied in a finalize step so that handles stay valid while
//! the tick runs.

use vstd::prelude::*;
use crate::phys::AgeTracker;
use crate::phys::FrictionHaver;
use crate::phys::HasDims;
use crate::phys::KinematicState;
use crate::phys::LimitedTimeOffer;
use crate::phys::Mover;
use crate::phys::Positioned;
use crate::phys::Velocitized;

verus! {

/// A handle naming one body for its whole lifetime.
pub type Entity = u64;

/// Largest handle the arena will hand out; leaves headroom so one more
/// spawn can never wrap.
pub const ID_LIM: u64 = 0xFFFF_FFFF_FFFF_0000;

/// A configuration fault: the simulation was asked to run on a world or
/// body that is missing something it relies on. Fatal at setup time, never
/// recovered at runtime.
#[derive(Clone, Copy, Debug, PartialEq, Eq, Structural)]
pub enum ConfigurationError {
    /// A body lacks a component that the requested operation needs.
    MissingComponent,
    /// A stored quantity is outside the bounds the arithmetic relies on.
    OutOfRange,
}

/// One body and the components it carries.
#[derive(Clone, Copy, Debug)]
pub struct Body {
    pub id: Entity,
    pub pos: Option<Positioned>,
    pub dims: Option<HasDims>,
    pub mover: Option<Mover>,
    pub vel: Option<Velocitized>,
    pub kinematic: Option<KinematicState>,
    pub friction: Option<FrictionHaver>,
    pub age: Option<AgeTracker>,
    pub despawn_timer: Option<LimitedTimeOffer>,
    pub collider: bool,
    pub swingable: bool,
    pub bonker: bool,
}

/// The components of a body that is about to be spawned; the arena picks
/// its handle.
#[derive(Clone, Copy, Debug)]
pub struct BodyPlan {
    pub pos: Option<Positioned>,
    pub dims: Option<HasDims>,
    pub mover: Option<Mover>,
    pub vel: Option<Velocitized>,
    pub kinematic: Option<KinematicState>,
    pub friction: Option<FrictionHaver>,
    pub age: Option<AgeTracker>,
    pub despawn_timer: Option<LimitedTimeOffer>,
    pub collider: bool,
    pub swingable: bool,
    pub bonker: bool,
}

/// The body a plan becomes under a given handle.
pub open spec fn body_of(plan: BodyPlan, id: Entity) -> Body {
    Body {
        id,
        pos: plan.pos,
        dims: plan.dims,
        mover: plan.mover,
        vel: plan.vel,
        kinematic: plan.kinematic,
        friction: plan.friction,
        age: plan.age,
        despawn_timer: plan.despawn_timer,
        collider: plan.collider,
        swingable: plan.swingable,
        bonker: plan.bonker,
    }
}

/// Each optional component within its own bounds.
pub open spec fn body_wf(b: Body) -> bool {
    &&& match b.pos {
        Some(p) => p.wf(),
        None => true,
    }
    &&& match b.dims {
        Some(d) => d.wf(),
        None => true,
    }
    &&& match b.mover {
        Some(m) => m.wf(),
        None => true,
    }
    &&& match b.vel {
        Some(v) => v.wf(),
        None => true,
    }
    &&& match b.friction {
        Some(f) => f.wf(),
        None => true,
    }
}

/// Whether a handle occurs in a sequence of handles.
pub open spec fn id_in(d: Seq<Entity>, e: Entity) -> bool {
    exists|i: int| 0 <= i < d.len() && d[i] == e
}

/// Whether some body in the sequence carries the handle.
pub open spec fn body_with_id(s: Seq<Body>, e: Entity) -> bool {
    exists|i: int| 0 <= i < s.len() && s[i].id == e
}

/// No two bodies share a handle.
pub open spec fn ids_distinct(s: Seq<Body>) -> bool {
    forall|i: int, j: int| 0 <= i < j < s.len() ==> s[i].id != s[j].id
}

/// Whether the body named by `dst` blocks movement for `src`: they differ
/// and `dst` is live and carries the collider marker.
pub open spec fn collides_spec(s: Seq<Body>, src: Entity, dst: Entity) -> bool {
    src != dst && exists|i: int|
        0 <= i < s.len() && (#[trigger] s[i]).id == dst && s[i].collider
}

/// The bodies of `s`, in order, with those whose handle occurs in `d`
/// removed.
pub open spec fn remove_despawned(s: Seq<Body>, d: Seq<Entity>) -> Seq<Body>
    decreases s.len(),
{
    if s.len() == 0 {
        Seq::empty()
    } else {
        let rest = remove_despawned(s.drop_last(), d);
        if id_in(d, s.last().id) {
            rest
        } else {
            rest.push(s.last())
        }
    }
}

/// Every body surviving the removal is one of the bodies given.
pub proof fn lemma_remove_despawned_sub(s: Seq<Body>, d: Seq<Entity>)
    ensures
        forall|k: int|
            0 <= k < remove_despawned(s, d).len() ==> exists|i: int|
                0 <= i < s.len() && #[trigger] remove_despawned(s, d)[k] == s[i],
    decreases s.len(),
{
    if s.len() > 0 {
        lemma_remove_despawned_sub(s.drop_last(), d);
        let r = remove_despawned(s, d);
        let rest = remove_despawned(s.drop_last(), d);
        assert forall|k: int| 0 <= k < r.len() implies exists|i: int|
            0 <= i < s.len() && #[trigger] r[k] == s[i] by {
            if k < rest.len() {
                let i = choose|i: int| 0 <= i < s.drop_last().len() && rest[k] == s.drop_last()[i];
                assert(s.drop_last()[i] == s[i]);
                assert(r[k] == s[i]);
            } else {
                assert(r[k] == s.last());
                assert(r[k] == s[s.len() - 1]);
            }
        }
    }
}

/// Removal keeps handles distinct, and drops every despawned handle.
pub proof fn lemma_remove_despawned_distinct(s: Seq<Body>, d: Seq<Entity>)
    requires
        ids_distinct(s),
    ensures
        ids_distinct(remove_despawned(s, d)),
        forall|k: int|
            0 <= k < remove_despawned(s, d).len() ==> !id_in(
                d,
                remove_despawned(s, d)[k].id,
            ),
    decreases s.len(),
{
    if s.len() > 0 {
        assert(ids_distinct(s.drop_last())) by {
            assert(forall|i: int, j: int|
                0 <= i < j < s.drop_last().len() ==> s.drop_last()[i].id != s.drop_last()[j].id);
        }
        lemma_remove_despawned_distinct(s.drop_last(), d);
        lemma_remove_despawned_sub(s.drop_last(), d);
        let r = remove_despawned(s, d);
        let rest = remove_despawned(s.drop_last(), d);
        if !id_in(d, s.last().id) {
            assert forall|i: int, j: int| 0 <= i < j < r.len() implies r[i].id != r[j].id by {
                if j < rest.len() {
                    assert(rest[i].id != rest[j].id);
                } else {
                    let k = choose|k: int|
                        0 <= k < s.drop_last().len() && rest[i] == s.drop_last()[k];
                    assert(s[k].id != s[s.len() - 1].id);
                }
            }
        }
    }
}

/// The world arena.
pub struct World {
    /// The live bodies, in spawn order.
    pub bodies: Vec<Body>,
    /// Bodies to add when the tick's structural changes are committed.
    pub pending_spawns: Vec<Body>,
    /// Handles to remove when the tick's structural changes are committed.
    pub pending_despawns: Vec<Entity>,
    /// The next handle to hand out.
    pub next_id: Entity,
}

/// Every body in the sequence has its components in bounds.
pub open spec fn bodies_wf(s: Seq<Body>) -> bool {
    forall|i: int| 0 <= i < s.len() ==> body_wf(#[trigger] s[i])
}

/// Every body's position and dimensions, where present, are in bounds.
pub open spec fn placements_ok(s: Seq<Body>) -> bool {
    forall|i: int|
        0 <= i < s.len() ==> {
            let b = #[trigger] s[i];
            &&& match b.pos {
                Some(p) => p.wf(),
                None => true,
            }
            &&& match b.dims {
                Some(d) => d.wf(),
                None => true,
            }
        }
}

impl World {
    /// The handle bookkeeping alone: handles distinct and below the
    /// watermark, in both the live arena and the spawn buffer. This part
    /// survives a tick even when bodies move out of bounds.
    pub open spec fn arena_ok(self) -> bool {
        &&& ids_distinct(self.bodies@)
        &&& ids_distinct(self.pending_spawns@)
        &&& forall|i: int|
            0 <= i < self.bodies@.len() ==> (#[trigger] self.bodies@[i]).id < self.next_id
        &&& forall|i: int|
            0 <= i < self.pending_spawns@.len() ==> (#[trigger] self.pending_spawns@[i]).id
                < self.next_id
        &&& forall|i: int, j: int|
            0 <= i < self.bodies@.len() && 0 <= j < self.pending_spawns@.len()
                ==> (#[trigger] self.bodies@[i]).id != (#[trigger] self.pending_spawns@[j]).id
        &&& self.next_id <= ID_LIM
    }

    /// Handle bookkeeping sound and every component in bounds.
    pub open spec fn wf(self) -> bool {
        &&& self.arena_ok()
        &&& bodies_wf(self.bodies@)
        &&& bodies_wf(self.pending_spawns@)
    }

    /// An empty world.
    pub fn new() -> (r: World)
        ensures
            r.wf(),
            r.bodies@.len() == 0,
            r.pending_spawns@.len() == 0,
            r.pending_despawns@.len() == 0,
            r.next_id == 0,
    {
        World { bodies: Vec::new(), pending_spawns: Vec::new(), pending_despawns: Vec::new(), next_id: 0 }
    }

    /// Add a body immediately; it is visible to queries at once. Returns
    /// its fresh handle.
    pub fn spawn(&mut self, plan: BodyPlan) -> (r: Entity)
        requires
            old(self).arena_ok(),
            old(self).next_id < ID_LIM,
            body_wf(body_of(plan, 0)),
        ensures
            final(self).arena_ok(),
            old(self).wf() ==> final(self).wf(),
            r == old(self).next_id,
            final(self).next_id == old(self).next_id + 1,
            final(self).bodies@ == old(self).bodies@.push(body_of(plan, r)),
            final(self).pending_spawns@ == old(self).pending_spawns@,
            final(self).pending_despawns@ == old(self).pending_despawns@,
    {
        let id: Entity = self.next_id;
        let b = Body {
            id,
            pos: plan.pos,
            dims: plan.dims,
            mover: plan.mover,
            vel: plan.vel,
            kinematic: plan.kinematic,
            friction: plan.friction,
            age: plan.age,
            despawn_timer: plan.despawn_timer,
            collider: plan.collider,
            swingable: plan.swingable,
            bonker: plan.bonker,
        };
        self.bodies.push(b);
        self.next_id = self.next_id + 1;
        proof {
            let s = self.bodies@;
            assert(forall|i: int| 0 <= i < s.len() - 1 ==> s[i] == old(self).bodies@[i]);
            assert(s[s.len() - 1] == b);
            assert(ids_distinct(s));
        }
        id
    }

    /// Schedule a body to appear when this tick's structural changes are
    /// committed; its handle is reserved at once but queries do not see
    /// the body until then.
    pub fn lazy_spawn(&mut self, plan: BodyPlan) -> (r: Entity)
        requires
            old(self).arena_ok(),
            old(self).next_id < ID_LIM,
            body_wf(body_of(plan, 0)),
        ensures
            final(self).arena_ok(),
            old(self).wf() ==> final(self).wf(),
            r == old(self).next_id,
            final(self).next_id == old(self).next_id + 1,
            final(self).bodies@ == old(self).bodies@,
            final(self).pending_spawns@ == old(self).pending_spawns@.push(body_of(plan, r)),
            final(self).pending_despawns@ == old(self).pending_despawns@,
    {
        let id: Entity = self.next_id;
        let b = Body {
            id,
            pos: plan.pos,
            dims: plan.dims,
            mover: plan.mover,
            vel: plan.vel,
            kinematic: plan.kinematic,
            friction: plan.friction,
            age: plan.age,
            despawn_timer: plan.despawn_timer,
            collider: plan.collider,
            swingable: plan.swingable,
            bonker: plan.bonker,
        };
        self.pending_spawns.push(b);
        self.next_id = self.next_id + 1;
        proof {
            let s = self.pending_spawns@;
            assert(forall|i: int| 0 <= i < s.len() - 1 ==> s[i] == old(self).pending_spawns@[i]);
            assert(s[s.len() - 1] == b);
            assert(ids_distinct(s));
            assert(forall|i: int|
                0 <= i < self.bodies@.len() ==> (#[trigger] self.bodies@[i]).id != b.id);
        }
        id
    }

    /// Schedule a body's removal for when this tick's structural changes
    /// are committed; queries still see it until then.
    pub fn lazy_despawn(&mut self, e: Entity) -> (r: ())
        ensures
            final(self).bodies@ == old(self).bodies@,
            final(self).pending_spawns@ == old(self).pending_spawns@,
            final(self).pending_despawns@ == old(self).pending_despawns@.push(e),
            final(self).next_id == old(self).next_id,
            old(self).arena_ok() ==> final(self).arena_ok(),
            old(self).wf() ==> final(self).wf(),
    {
        self.pending_despawns.push(e);
    }

    /// Commit the tick's structural changes: despawned bodies disappear
    /// (whether live or still pending), pending spawns append in handle
    /// order, and both buffers drain.
    #[verifier::rlimit(40)]
    pub fn finalize(&mut self) -> (r: ())
        requires
            old(self).arena_ok(),
        ensures
            final(self).arena_ok(),
            old(self).wf() ==> final(self).wf(),
            final(self).bodies@ == remove_despawned(
                old(self).bodies@ + old(self).pending_spawns@,
                old(self).pending_despawns@,
            ),
            final(self).pending_spawns@.len() == 0,
            final(self).pending_despawns@.len() == 0,
            final(self).next_id == old(self).next_id,
    {
        let ghost all: Seq<Body> = self.bodies@ + self.pending_spawns@;
        let ghost d: Seq<Entity> = self.pending_despawns@;
        proof {
            assert(ids_distinct(all)) by {
                assert(forall|i: int|
                    0 <= i < all.len() ==> all[i] == if i < self.bodies@.len() {
                        self.bodies@[i]
                    } else {
                        self.pending_spawns@[i - self.bodies@.len()]
                    });
            }
            lemma_remove_despawned_sub(all, d);
            lemma_remove_despawned_distinct(all, d);
        }
        let mut kept: Vec<Body> = Vec::new();
        let n_live: usize = self.bodies.len();
        let mut i: usize = 0;
        while i < n_live
            invariant
                i <= n_live,
                n_live == self.bodies@.len(),
                all == self.bodies@ + self.pending_spawns@,
                d == self.pending_despawns@,
                kept@ == remove_despawned(all.take(i as int), d),
            decreases n_live - i,
        {
            let b: Body = self.bodies[i];
            let gone: bool = self.is_pending_despawn(b.id);
            proof {
                assert(all.take(i as int + 1).drop_last() == all.take(i as int));
                assert(all.take(i as int + 1).last() == all[i as int]);
                assert(all[i as int] == self.bodies@[i as int]);
            }
            if !gone {
                kept.push(b);
            }
            i = i + 1;
        }
        let n_pending: usize = self.pending_spawns.len();
        let mut j: usize = 0;
        while j < n_pending
            invariant
                j <= n_pending,
                n_pending == self.pending_spawns@.len(),
                all == self.bodies@ + self.pending_spawns@,
                d == self.pending_despawns@,
                n_live == self.bodies@.len(),
                kept@ == remove_despawned(all.take(n_live + j), d),
            decreases n_pending - j,
        {
            let b: Body = self.pending_spawns[j];
            let gone: bool = self.is_pending_despawn(b.id);
            proof {
                assert(all.take(n_live + j + 1).drop_last() == all.take(n_live + j));
                assert(all.take(n_live + j + 1).last() == all[n_live + j]);
                assert(all[n_live + j] == self.pending_spawns@[j as int]);
            }
            if !gone {
                kept.push(b);
            }
            j = j + 1;
        }
        proof {
            assert(all.take(n_live + n_pending as int) == all);
        }
        self.bodies = kept;
        self.pending_spawns = Vec::new();
        self.pending_despawns = Vec::new();
    }

    /// Whether a handle is already scheduled for removal this tick.
    pub fn is_pending_despawn(&self, e: Entity) -> (r: bool)
        ensures
            r == id_in(self.pending_despawns@, e),
    {
        let n: usize = self.pending_despawns.len();
        let mut i: usize = 0;
        while i < n
            invariant
                i <= n,
                n == self.pending_despawns@.len(),
                forall|k: int| 0 <= k < i ==> self.pending_despawns@[k] != e,
            decreases n - i,
        {
            if self.pending_despawns[i] == e {
                return true;
            }
            i = i + 1;
        }
        false
    }

    /// The index of the body carrying a handle, if it is live.
    pub fn find_index(&self, e: Entity) -> (r: Option<usize>)
        ensures
            match r {
                Some(i) => i < self.bodies@.len() && self.bodies@[i as int].id == e,
                None => !body_with_id(self.bodies@, e),
            },
    {
        let n: usize = self.bodies.len();
        let mut i: usize = 0;
        while i < n
            invariant
                i <= n,
                n == self.bodies@.len(),
                forall|k: int| 0 <= k < i ==> (#[trigger] self.bodies@[k]).id != e,
            decreases n - i,
        {
            if self.bodies[i].id == e {
                return Some(i);
            }
            i = i + 1;
        }
        None
    }

    /// Whether the body named by `dst` blocks movement for `src`: true
    /// exactly when they differ and `dst` is live and carries the collider
    /// marker.
    pub fn collides_with(&self, src: Entity, dst: Entity) -> (r: bool)
        requires
            ids_distinct(self.bodies@),
        ensures
            r == collides_spec(self.bodies@, src, dst),
    {
        if src == dst {
            return false;
        }
        match self.find_index(dst) {
            Some(i) => {
                let c: bool = self.bodies[i].collider;
                proof {
                    if c {
                        assert(self.bodies@[i as int].id == dst && self.bodies@[i as int].collider);
                    } else {
                        assert(forall|k: int|
                            0 <= k < self.bodies@.len() && (#[trigger] self.bodies@[k]).id == dst
                                ==> k == i);
                    }
                }
                c
            },
            None => false,
        }
    }
}


/// Whether a single body's components are within their bounds.
pub fn check_body_wf(b: &Body) -> (r: bool)
    ensures
        r == body_wf(*b),
{
    let pos_ok: bool = match b.pos {
        Some(p) => -crate::phys::POS_LIM <= p.pos.x && p.pos.x <= crate::phys::POS_LIM
            && -crate::phys::POS_LIM <= p.pos.y && p.pos.y <= crate::phys::POS_LIM,
        None => true,
    };
    let dims_ok: bool = match b.dims {
        Some(d) => 0 <= d.w && d.w <= crate::geom::DIM_LIM && 0 <= d.h && d.h
            <= crate::geom::DIM_LIM,
        None => true,
    };
    let mover_ok: bool = match b.mover {
        Some(m) => -crate::phys::REM_LIM <= m.remainder.x && m.remainder.x <= crate::phys::REM_LIM
            && -crate::phys::REM_LIM <= m.remainder.y && m.remainder.y <= crate::phys::REM_LIM,
        None => true,
    };
    let vel_ok: bool = match b.vel {
        Some(v) => -crate::phys::VEL_LIM <= v.vel.x && v.vel.x <= crate::phys::VEL_LIM
            && -crate::phys::VEL_LIM <= v.vel.y && v.vel.y <= crate::phys::VEL_LIM,
        None => true,
    };
    let friction_ok: bool = match b.friction {
        Some(f) => 0 <= f.friction && f.friction <= crate::vec2::VEC_LIM,
        None => true,
    };
    pos_ok && dims_ok && mover_ok && vel_ok && friction_ok
}

/// Whether every body in the list is within bounds.
fn check_bodies_wf(s: &Vec<Body>) -> (r: bool)
    ensures
        r == bodies_wf(s@),
{
    let n: usize = s.len();
    let mut i: usize = 0;
    while i < n
        invariant
            i <= n,
            n == s@.len(),
            forall|k: int| 0 <= k < i ==> body_wf(#[trigger] s@[k]),
        decreases n - i,
    {
        if !check_body_wf(&s[i]) {
            return false;
        }
        i = i + 1;
    }
    true
}

/// Whether no two bodies in the list share a handle.
fn check_ids_distinct(s: &Vec<Body>) -> (r: bool)
    ensures
        r == ids_distinct(s@),
{
    let n: usize = s.len();
    let mut i: usize = 0;
    while i < n
        invariant
            i <= n,
            n == s@.len(),
            forall|a: int, b: int| 0 <= a < i && a < b < n ==> s@[a].id != s@[b].id,
        decreases n - i,
    {
        let mut j: usize = i + 1;
        while j < n
            invariant
                i < j <= n,
                i < n,
                n == s@.len(),
                forall|b: int| i < b < j ==> s@[i as int].id != s@[b].id,
            decreases n - j,
        {
            if s[i].id == s[j].id {
                return false;
            }
            j = j + 1;
        }
        i = i + 1;
    }
    true
}

impl World {
    /// Whether the arena and every component are within bounds; the exact
    /// run-time test for [`World::wf`].
    pub fn check_wf(&self) -> (r: bool)
        ensures
            r == self.wf(),
    {
        let live_distinct: bool = check_ids_distinct(&self.bodies);
        let pend_distinct: bool = check_ids_distinct(&self.pending_spawns);
        let live_wf: bool = check_bodies_wf(&self.bodies);
        let pend_wf: bool = check_bodies_wf(&self.pending_spawns);
        let live_below: bool = self.check_ids_below(&self.bodies);
        let pend_below: bool = self.check_ids_below(&self.pending_spawns);
        let cross: bool = self.check_cross_distinct();
        live_distinct && pend_distinct && live_wf && pend_wf && live_below && pend_below && cross
            && self.next_id <= ID_LIM
    }

    /// Whether every handle in the list is below the watermark.
    fn check_ids_below(&self, s: &Vec<Body>) -> (r: bool)
        ensures
            r == forall|i: int| 0 <= i < s@.len() ==> (#[trigger] s@[i]).id < self.next_id,
    {
        let n: usize = s.len();
        let mut i: usize = 0;
        while i < n
            invariant
                i <= n,
                n == s@.len(),
                forall|k: int| 0 <= k < i ==> (#[trigger] s@[k]).id < self.next_id,
            decreases n - i,
        {
            if !(s[i].id < self.next_id) {
                return false;
            }
            i = i + 1;
        }
        true
    }

    /// Whether no live body shares a handle with a pending spawn.
    fn check_cross_distinct(&self) -> (r: bool)
        ensures
            r == forall|i: int, j: int|
                0 <= i < self.bodies@.len() && 0 <= j < self.pending_spawns@.len()
                    ==> (#[trigger] self.bodies@[i]).id != (#[trigger] self.pending_spawns@[j]).id,
    {
        let n: usize = self.bodies.len();
        let m: usize = self.pending_spawns.len();
        let mut i: usize = 0;
        while i < n
            invariant
                i <= n,
                n == self.bodies@.len(),
                m == self.pending_spawns@.len(),
                forall|a: int, b: int|
                    0 <= a < i && 0 <= b < m ==> (#[trigger] self.bodies@[a]).id
                        != (#[trigger] self.pending_spawns@[b]).id,
            decreases n - i,
        {
            let mut j: usize = 0;
            while j < m
                invariant
                    i < n,
                    j <= m,
                    n == self.bodies@.len(),
                    m == self.pending_spawns@.len(),
                    forall|b: int|
                        0 <= b < j ==> self.bodies@[i as int].id
                            != (#[trigger] self.pending_spawns@[b]).id,
                decreases m - j,
            {
                if self.bodies[i].id == self.pending_spawns[j].id {
                    return false;
                }
                j = j + 1;
            }
            i = i + 1;
        }
        true
    }
}

} // verus!
