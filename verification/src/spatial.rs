//! The broad-phase spatial index: a per-tick snapshot of every tracked
//! body's hitbox, answering exact intersection queries with no false
//! negatives and a deterministic (spawn-order) result order.

use vstd::prelude::*;
use crate::geom::Hitbox;
use crate::geom::boxes_overlap;
use crate::world::Body;
use crate::world::Entity;
use crate::world::World;
use crate::world::body_wf;

verus! {

/// One indexed body: its handle and the hitbox it occupied when the
/// snapshot was taken.
#[derive(Clone, Copy, Debug)]
pub struct EntityAABB {
    pub e: Entity,
    pub hb: Hitbox,
}

impl EntityAABB {
    /// Pair a handle with its box.
    pub fn new(e: Entity, hb: Hitbox) -> (r: EntityAABB)
        ensures
            r.e == e,
            r.hb == hb,
    {
        EntityAABB { e, hb }
    }

    /// The stored box.
    pub fn hb(&self) -> (r: Hitbox)
        ensures
            r == self.hb,
    {
        self.hb
    }
}

/// The snapshot the index holds for a sequence of bodies: every body that
/// has both a position and dimensions, in order, with its current hitbox.
pub open spec fn snapshot_spec(s: Seq<Body>) -> Seq<EntityAABB>
    decreases s.len(),
{
    if s.len() == 0 {
        Seq::empty()
    } else {
        let rest = snapshot_spec(s.drop_last());
        let b = s.last();
        match (b.pos, b.dims) {
            (Some(p), Some(d)) => rest.push(
                EntityAABB {
                    e: b.id,
                    hb: Hitbox::new_spec(p.pos.x as int, p.pos.y as int, d.w as int, d.h as int),
                },
            ),
            _ => rest,
        }
    }
}

/// Every snapshot entry has a well-formed box, provided every body does.
pub proof fn lemma_snapshot_wf(s: Seq<Body>)
    requires
        forall|i: int| 0 <= i < s.len() ==> body_wf(#[trigger] s[i]),
    ensures
        forall|k: int| 0 <= k < snapshot_spec(s).len() ==> (#[trigger] snapshot_spec(s)[k]).hb.wf(),
    decreases s.len(),
{
    if s.len() > 0 {
        assert(forall|i: int| 0 <= i < s.drop_last().len() ==> body_wf(#[trigger] s.drop_last()[i]));
        lemma_snapshot_wf(s.drop_last());
        let b = s.last();
        assert(body_wf(s[s.len() - 1]));
        if b.pos is Some && b.dims is Some {
            let p = b.pos->0;
            let d = b.dims->0;
            let hb = Hitbox::new_spec(p.pos.x as int, p.pos.y as int, d.w as int, d.h as int);
            assert(hb.wf()) by {
                lemma_new_spec_wf(p, d);
            }
        }
        let r = snapshot_spec(s);
        let rest = snapshot_spec(s.drop_last());
        assert forall|k: int| 0 <= k < r.len() implies (#[trigger] r[k]).hb.wf() by {
            if k < rest.len() {
                assert(r[k] == rest[k]);
            }
        }
    }
}

/// A hitbox built from a well-formed position and dimensions is
/// well-formed.
proof fn lemma_new_spec_wf(p: crate::phys::Positioned, d: crate::phys::HasDims)
    requires
        p.wf(),
        d.wf(),
    ensures
        Hitbox::new_spec(p.pos.x as int, p.pos.y as int, d.w as int, d.h as int).wf(),
{
    crate::fx::lemma_div_shrinks(d.w as int, 2);
    crate::fx::lemma_div_shrinks(d.h as int, 2);
}

/// The handles of the indexed bodies whose boxes overlap `rect`, in
/// snapshot order.
pub open spec fn query_spec(s: Seq<EntityAABB>, rect: Hitbox) -> Seq<Entity>
    decreases s.len(),
{
    if s.len() == 0 {
        Seq::empty()
    } else {
        let rest = query_spec(s.drop_last(), rect);
        if boxes_overlap(s.last().hb, rect) {
            rest.push(s.last().e)
        } else {
            rest
        }
    }
}

/// The queryable snapshot of all tracked bodies, rebuilt once per tick
/// before collision resolution.
pub struct SpatialIndex {
    /// The indexed entries, in the bodies' spawn order.
    pub entries: Vec<EntityAABB>,
}

impl SpatialIndex {
    /// Every entry's box is well-formed.
    pub open spec fn wf(self) -> bool {
        forall|k: int| 0 <= k < self.entries@.len() ==> (#[trigger] self.entries@[k]).hb.wf()
    }

    /// Build the snapshot of every body that has both a position and
    /// dimensions, in spawn order.
    pub fn rebuild(world: &World) -> (r: SpatialIndex)
        requires
            crate::world::placements_ok(world.bodies@),
        ensures
            r.entries@ == snapshot_spec(world.bodies@),
            r.wf(),
    {
        let ghost s: Seq<Body> = world.bodies@;
        let mut entries: Vec<EntityAABB> = Vec::new();
        let n: usize = world.bodies.len();
        let mut i: usize = 0;
        while i < n
            invariant
                i <= n,
                n == s.len(),
                s == world.bodies@,
                crate::world::placements_ok(world.bodies@),
                entries@ == snapshot_spec(s.take(i as int)),
                forall|k: int| 0 <= k < entries@.len() ==> (#[trigger] entries@[k]).hb.wf(),
            decreases n - i,
        {
            let b: Body = world.bodies[i];
            proof {
                assert(s.take(i as int + 1).drop_last() == s.take(i as int));
                assert(s.take(i as int + 1).last() == s[i as int]);
            }
            match (b.pos, b.dims) {
                (Some(p), Some(d)) => {
                    let hb: Hitbox = p.make_hitbox(d);
                    entries.push(EntityAABB { e: b.id, hb });
                },
                _ => {},
            }
            i = i + 1;
        }
        proof {
            assert(s.take(n as int) == s);
        }
        SpatialIndex { entries }
    }

    /// All indexed bodies whose hitbox overlaps the given box, in
    /// snapshot order. Exact reporting: no false positives and no false
    /// negatives.
    pub fn get_entities_in_box(&self, hitbox: Hitbox) -> (r: Vec<Entity>)
        ensures
            r@ == query_spec(self.entries@, hitbox),
    {
        let ghost s: Seq<EntityAABB> = self.entries@;
        let mut out: Vec<Entity> = Vec::new();
        let n: usize = self.entries.len();
        let mut i: usize = 0;
        while i < n
            invariant
                i <= n,
                n == s.len(),
                s == self.entries@,
                out@ == query_spec(s.take(i as int), hitbox),
            decreases n - i,
        {
            let entry: EntityAABB = self.entries[i];
            proof {
                assert(s.take(i as int + 1).drop_last() == s.take(i as int));
                assert(s.take(i as int + 1).last() == s[i as int]);
            }
            if entry.hb.overlaps(&hitbox) {
                out.push(entry.e);
            }
            i = i + 1;
        }
        proof {
            assert(s.take(n as int) == s);
        }
        out
    }
}


/// Keeps track of every body that has both a position and dimensions, so
/// the tick can rebuild the spatial index without scanning bodies that
/// could never be indexed. The orchestrator's spawn paths add a handle
/// when both components are present and remove it on despawn.
pub struct HitboxTracker {
    es: Vec<Entity>,
}

impl HitboxTracker {
    /// The tracked handles.
    pub closed spec fn view_spec(self) -> Seq<Entity> {
        self.es@
    }

    /// No handle tracked twice.
    pub closed spec fn wf(self) -> bool {
        forall|i: int, j: int|
            0 <= i < j < self.es@.len() ==> self.es@[i] != self.es@[j]
    }

    /// An empty tracker.
    pub fn new() -> (r: HitboxTracker)
        ensures
            r.view_spec().len() == 0,
            r.wf(),
    {
        HitboxTracker { es: Vec::new() }
    }

    /// Track a freshly created body; tracking a handle twice changes
    /// nothing.
    pub fn on_create(&mut self, e: Entity) -> (r: ())
        requires
            old(self).wf(),
        ensures
            final(self).view_spec() == if crate::world::id_in(old(self).view_spec(), e) {
                old(self).view_spec()
            } else {
                old(self).view_spec().push(e)
            },
            final(self).wf(),
    {
        if !self.contains(e) {
            self.es.push(e);
            proof {
                let s = self.es@;
                assert(forall|i: int| 0 <= i < s.len() - 1 ==> s[i] == old(self).es@[i]);
            }
        }
    }

    /// Stop tracking a removed body; removing an untracked handle changes
    /// nothing.
    pub fn on_remove(&mut self, e: Entity) -> (r: ())
        requires
            old(self).wf(),
        ensures
            !crate::world::id_in(final(self).view_spec(), e),
            forall|x: Entity|
                x != e ==> (crate::world::id_in(final(self).view_spec(), x)
                    == crate::world::id_in(old(self).view_spec(), x)),
            final(self).wf(),
    {
        let ghost s0: Seq<Entity> = self.es@;
        let mut kept: Vec<Entity> = Vec::new();
        let n: usize = self.es.len();
        let mut i: usize = 0;
        while i < n
            invariant
                i <= n,
                n == s0.len(),
                self.es@ == s0,
                forall|k: int| 0 <= k < kept@.len() ==> #[trigger] kept@[k] != e,
                forall|k: int|
                    0 <= k < kept@.len() ==> crate::world::id_in(
                        s0.take(i as int),
                        #[trigger] kept@[k],
                    ),
                forall|x: Entity|
                    x != e && crate::world::id_in(s0.take(i as int), x) ==> crate::world::id_in(
                        kept@,
                        x,
                    ),
                forall|a: int, b: int| 0 <= a < b < kept@.len() ==> kept@[a] != kept@[b],
            decreases n - i,
        {
            let ghost kept_entry: Seq<Entity> = kept@;
            let x: Entity = self.es[i];
            proof {
                assert(s0.take(i as int + 1).drop_last() == s0.take(i as int));
                assert(s0.take(i as int + 1).last() == s0[i as int]);
            }
            if x != e {
                if !vec_contains(&kept, x) {
                    kept.push(x);
                    proof {
                        let s = kept@;
                        assert(forall|k: int| 0 <= k < s.len() - 1 ==> s[k] == kept_entry[k]);
                        assert(crate::world::id_in(s0.take(i as int + 1), x)) by {
                            assert(s0.take(i as int + 1)[i as int] == x);
                        }
                    }
                }
            }
            proof {
                assert(forall|k: int|
                    0 <= k < kept_entry.len() ==> #[trigger] kept@[k] == kept_entry[k]);
                assert forall|k: int| 0 <= k < kept@.len() implies crate::world::id_in(
                    s0.take(i as int + 1),
                    #[trigger] kept@[k],
                ) by {
                    if k < kept_entry.len() {
                        let v = choose|v: int|
                            0 <= v < s0.take(i as int).len() && #[trigger] s0.take(i as int)[v]
                                == kept_entry[k];
                        assert(s0.take(i as int + 1)[v] == kept@[k]);
                    } else {
                        assert(kept@[k] == x);
                        assert(s0.take(i as int + 1)[i as int] == x);
                    }
                }
                assert forall|y: Entity|
                    y != e && crate::world::id_in(s0.take(i as int + 1), y) implies crate::world::id_in(
                    kept@,
                    y,
                ) by {
                    let v = choose|v: int|
                        0 <= v < s0.take(i as int + 1).len() && #[trigger] s0.take(
                            i as int + 1,
                        )[v] == y;
                    if v < i as int {
                        assert(s0.take(i as int)[v] == y);
                        assert(crate::world::id_in(s0.take(i as int), y));
                        assert(crate::world::id_in(kept_entry, y));
                        let w = choose|w: int|
                            0 <= w < kept_entry.len() && #[trigger] kept_entry[w] == y;
                        assert(0 <= w < kept_entry.len() && kept_entry[w] == y);
                        assert(kept@[w] == kept_entry[w]);
                        assert(kept@[w] == y);
                    } else {
                        assert(y == x);
                        if crate::world::id_in(kept_entry, x) {
                            let w = choose|w: int|
                                0 <= w < kept_entry.len() && #[trigger] kept_entry[w] == x;
                            assert(kept@[w] == x);
                        } else {
                            assert(kept@[kept@.len() - 1] == x);
                        }
                    }
                }
            }
            i = i + 1;
        }
        proof {
            assert(s0.take(n as int) == s0);
        }
        self.es = kept;
    }

    /// The tracked handles, in tracking order.
    pub fn iter(&self) -> (r: Vec<Entity>)
        ensures
            r@ == self.view_spec(),
    {
        let mut out: Vec<Entity> = Vec::new();
        let n: usize = self.es.len();
        let mut i: usize = 0;
        while i < n
            invariant
                i <= n,
                n == self.es@.len(),
                out@ == self.es@.take(i as int),
            decreases n - i,
        {
            out.push(self.es[i]);
            proof {
                assert(out@ =~= self.es@.take(i as int + 1));
            }
            i = i + 1;
        }
        proof {
            assert(self.es@.take(n as int) == self.es@);
        }
        out
    }

    /// Whether a handle is tracked.
    pub fn contains(&self, e: Entity) -> (r: bool)
        ensures
            r == crate::world::id_in(self.view_spec(), e),
    {
        vec_contains(&self.es, e)
    }
}

/// Whether a handle occurs in a list.
fn vec_contains(s: &Vec<Entity>, e: Entity) -> (r: bool)
    ensures
        r == crate::world::id_in(s@, e),
{
    let n: usize = s.len();
    let mut i: usize = 0;
    while i < n
        invariant
            i <= n,
            n == s@.len(),
            forall|k: int| 0 <= k < i ==> s@[k] != e,
        decreases n - i,
    {
        if s[i] == e {
            return true;
        }
        i = i + 1;
    }
    false
}

} // verus!
