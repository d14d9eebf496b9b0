//! The swept, pixel-stepped collision resolver. Each tick, every body with
//! a movement remainder is advanced one pixel at a time, horizontal axis
//! first, stopping on the last free pixel before a blocking body; the
//! per-pair bonk cache keeps the two axis passes of one tick from
//! reporting two conflicting contacts for the same pair.

use vstd::prelude::*;
use crate::fx;
use crate::fx::SCALE;
use crate::geom::Direction8;
use crate::geom::Hitbox;
use crate::geom::boxes_overlap;
use crate::phys::IVec2;
use crate::phys::Mover;
use crate::phys::Positioned;
use crate::phys::Velocitized;
use crate::phys;
use crate::spatial::EntityAABB;
use crate::spatial::SpatialIndex;
use crate::vec2::FxVec2;
use crate::world::Body;
use crate::world::Entity;
use crate::world::World;
use crate::world::collides_spec;

verus! {

/// Largest remainder magnitude the sweep accepts; one tick's accumulated
/// movement stays below this.
pub const SWEEP_REM_LIM: i64 = 0x0400_0000_0000;

/// Largest pixel count one sweep can cover, fixed by [`SWEEP_REM_LIM`].
pub const SWEEP_STEP_LIM: i64 = 0x0400_0001;

/// One remembered contact: the unordered pair (stored with `a < b`) and
/// the raw contact normal recorded for it.
#[derive(Clone, Copy, Debug, PartialEq, Eq, Structural)]
pub struct CacheEntry {
    pub a: Entity,
    pub b: Entity,
    pub norm_x: i32,
    pub norm_y: i32,
}

/// The smaller handle of a pair.
pub open spec fn pair_lo(a: Entity, b: Entity) -> Entity {
    if a < b {
        a
    } else {
        b
    }
}

/// The larger handle of a pair.
pub open spec fn pair_hi(a: Entity, b: Entity) -> Entity {
    if a < b {
        b
    } else {
        a
    }
}

/// The normal the cache answers for a query `(a, b)`: the first recorded
/// entry for the unordered pair, flipped when the query names the pair in
/// the opposite order to how it was recorded.
pub open spec fn cache_get_spec(c: Seq<CacheEntry>, a: Entity, b: Entity) -> Option<(i32, i32)>
    decreases c.len(),
{
    if c.len() == 0 {
        None
    } else if c[0].a == pair_lo(a, b) && c[0].b == pair_hi(a, b) {
        if a == pair_lo(a, b) {
            Some((c[0].norm_x, c[0].norm_y))
        } else {
            Some(((-c[0].norm_x) as i32, (-c[0].norm_y) as i32))
        }
    } else {
        cache_get_spec(c.subrange(1, c.len() as int), a, b)
    }
}

/// The tick-scoped cache of contacts already resolved between pairs of
/// bodies, preventing a pair from producing two conflicting normals in
/// one tick.
pub struct BonkCache {
    /// The recorded contacts, oldest first.
    pub entries: Vec<CacheEntry>,
}

impl BonkCache {
    /// Every recorded pair is strictly ordered, and normals are unit
    /// axis steps.
    pub open spec fn wf(self) -> bool {
        forall|i: int|
            0 <= i < self.entries@.len() ==> (#[trigger] self.entries@[i]).a
                < self.entries@[i].b && -1 <= self.entries@[i].norm_x <= 1 && -1
                <= self.entries@[i].norm_y <= 1
    }

    /// An empty cache, made fresh for each collision pass.
    pub fn new() -> (r: BonkCache)
        ensures
            r.entries@.len() == 0,
            r.wf(),
    {
        BonkCache { entries: Vec::new() }
    }

    /// Order a pair of handles.
    pub fn sort(a: Entity, b: Entity) -> (r: (Entity, Entity))
        ensures
            r.0 == pair_lo(a, b),
            r.1 == pair_hi(a, b),
    {
        if a < b {
            (a, b)
        } else {
            (b, a)
        }
    }

    /// Record a contact normal for the unordered pair `(a, b)`.
    pub fn insert(&mut self, a: Entity, b: Entity, norm_x: i32, norm_y: i32) -> (r: ())
        requires
            a != b,
            -1 <= norm_x <= 1,
            -1 <= norm_y <= 1,
        ensures
            final(self).entries@ == old(self).entries@.push(
                CacheEntry { a: pair_lo(a, b), b: pair_hi(a, b), norm_x, norm_y },
            ),
            old(self).wf() ==> final(self).wf(),
    {
        let (lo, hi): (Entity, Entity) = BonkCache::sort(a, b);
        self.entries.push(CacheEntry { a: lo, b: hi, norm_x, norm_y });
        proof {
            let s = self.entries@;
            assert(forall|i: int| 0 <= i < s.len() - 1 ==> s[i] == old(self).entries@[i]);
        }
    }

    /// Look up the contact normal recorded for the unordered pair
    /// `(a, b)`, from `a`'s point of view.
    pub fn get(&self, a: Entity, b: Entity) -> (r: Option<(i32, i32)>)
        requires
            self.wf(),
        ensures
            r == cache_get_spec(self.entries@, a, b),
    {
        let ghost s: Seq<CacheEntry> = self.entries@;
        let (lo, hi): (Entity, Entity) = BonkCache::sort(a, b);
        let n: usize = self.entries.len();
        let mut i: usize = 0;
        proof {
            assert(s.subrange(0, n as int) == s);
        }
        while i < n
            invariant
                i <= n,
                n == s.len(),
                s == self.entries@,
                self.wf(),
                lo == pair_lo(a, b),
                hi == pair_hi(a, b),
                cache_get_spec(s, a, b) == cache_get_spec(s.subrange(i as int, n as int), a, b),
            decreases n - i,
        {
            let entry: CacheEntry = self.entries[i];
            proof {
                let tail = s.subrange(i as int, n as int);
                assert(tail[0] == s[i as int]);
                assert(tail.subrange(1, tail.len() as int) == s.subrange(i as int + 1, n as int));
            }
            if entry.a == lo && entry.b == hi {
                if a == lo {
                    return Some((entry.norm_x, entry.norm_y));
                } else {
                    return Some((-entry.norm_x, -entry.norm_y));
                }
            }
            i = i + 1;
        }
        proof {
            assert(s.subrange(n as int, n as int).len() == 0);
        }
        None
    }
}

/// A query finding a recorded pair implies the two handles differ.
pub proof fn lemma_cache_get_distinct(c: Seq<CacheEntry>, a: Entity, b: Entity)
    requires
        forall|i: int| 0 <= i < c.len() ==> (#[trigger] c[i]).a < c[i].b,
        cache_get_spec(c, a, b) is Some,
    ensures
        a != b,
    decreases c.len(),
{
    if c.len() > 0 {
        if c[0].a == pair_lo(a, b) && c[0].b == pair_hi(a, b) {
        } else {
            assert(forall|i: int|
                0 <= i < c.subrange(1, c.len() as int).len() ==> (#[trigger] c.subrange(
                    1,
                    c.len() as int,
                )[i]).a < c.subrange(1, c.len() as int)[i].b);
            lemma_cache_get_distinct(c.subrange(1, c.len() as int), a, b);
        }
    }
}

/// Whether an indexed body blocks `me` at the proposed box: its snapshot
/// box overlaps, and either this tick already resolved a contact for the
/// pair, or it is a live collider other than `me`.
pub open spec fn entry_hits(
    entry: EntityAABB,
    pb: Hitbox,
    cache: Seq<CacheEntry>,
    bodies: Seq<Body>,
    me: Entity,
) -> bool {
    boxes_overlap(entry.hb, pb) && (cache_get_spec(cache, me, entry.e) is Some || collides_spec(
        bodies,
        me,
        entry.e,
    ))
}

/// The first indexed body (in snapshot order) that blocks `me` at the
/// proposed box, if any.
pub open spec fn first_blocker(
    entries: Seq<EntityAABB>,
    pb: Hitbox,
    cache: Seq<CacheEntry>,
    bodies: Seq<Body>,
    me: Entity,
) -> Option<Entity>
    decreases entries.len(),
{
    if entries.len() == 0 {
        None
    } else if entry_hits(entries[0], pb, cache, bodies, me) {
        Some(entries[0].e)
    } else {
        first_blocker(entries.subrange(1, entries.len() as int), pb, cache, bodies, me)
    }
}

/// Find the first indexed body blocking `me` at the proposed box.
fn find_blocker(
    index: &SpatialIndex,
    pb: Hitbox,
    cache: &BonkCache,
    world: &World,
    me: Entity,
) -> (r: Option<Entity>)
    requires
        crate::world::ids_distinct(world.bodies@),
        cache.wf(),
    ensures
        r == first_blocker(index.entries@, pb, cache.entries@, world.bodies@, me),
{
    let ghost s: Seq<EntityAABB> = index.entries@;
    let n: usize = index.entries.len();
    let mut i: usize = 0;
    proof {
        assert(s.subrange(0, n as int) == s);
    }
    while i < n
        invariant
            i <= n,
            n == s.len(),
            s == index.entries@,
            crate::world::ids_distinct(world.bodies@),
            cache.wf(),
            first_blocker(s, pb, cache.entries@, world.bodies@, me) == first_blocker(
                s.subrange(i as int, n as int),
                pb,
                cache.entries@,
                world.bodies@,
                me,
            ),
        decreases n - i,
    {
        let entry: EntityAABB = index.entries[i];
        proof {
            let tail = s.subrange(i as int, n as int);
            assert(tail[0] == s[i as int]);
            assert(tail.subrange(1, tail.len() as int) == s.subrange(i as int + 1, n as int));
        }
        if entry.hb.overlaps(&pb) {
            let cached: Option<(i32, i32)> = cache.get(me, entry.e);
            let hit: bool = match cached {
                Some(_) => true,
                None => world.collides_with(me, entry.e),
            };
            if hit {
                return Some(entry.e);
            }
        }
        i = i + 1;
    }
    proof {
        assert(s.subrange(n as int, n as int).len() == 0);
    }
    None
}

/// The result of sweeping one body along one axis: the final center after
/// stepping up to `steps` pixels in direction `sign`, and the body that
/// blocked the last attempted step, if any. Each attempted step first
/// checks the box at the next pixel; a blocked step leaves the center on
/// the last free pixel.
pub open spec fn sweep_rec(
    entries: Seq<EntityAABB>,
    cache: Seq<CacheEntry>,
    bodies: Seq<Body>,
    me: Entity,
    cx: int,
    cy: int,
    w: int,
    h: int,
    horiz: bool,
    sign: int,
    steps: nat,
) -> ((int, int), Option<Entity>)
    decreases steps,
{
    if steps == 0 {
        ((cx, cy), None)
    } else {
        let nx: int = if horiz {
            cx + sign
        } else {
            cx
        };
        let ny: int = if horiz {
            cy
        } else {
            cy + sign
        };
        let pb = Hitbox::new_spec(nx, ny, w, h);
        match first_blocker(entries, pb, cache, bodies, me) {
            Some(e) => ((cx, cy), Some(e)),
            None => sweep_rec(
                entries,
                cache,
                bodies,
                me,
                nx,
                ny,
                w,
                h,
                horiz,
                sign,
                (steps - 1) as nat,
            ),
        }
    }
}

/// The boolean in `bonk` answers "is the contact normal in the positive
/// direction of the swept axis?".
#[derive(Clone, Copy, Debug)]
pub struct AxisMove {
    pub remainder: FxVec2,
    pub new_center: IVec2,
    pub bonk: Option<(Entity, bool)>,
}

/// Sweep one body one axis. The whole-pixel part of the remainder is
/// rounded off and walked one pixel at a time; the body stops on the last
/// pixel whose box is free of blockers, and the sub-pixel part stays in
/// the remainder. A blocked sweep records the contact in the cache.
#[verifier::loop_isolation(false)]
pub fn do_axis_movement(
    world: &World,
    me: Entity,
    remainder: FxVec2,
    hb: Hitbox,
    horiz: bool,
    index: &SpatialIndex,
    cache: &mut BonkCache,
) -> (r: AxisMove)
    requires
        crate::world::ids_distinct(world.bodies@),
        old(cache).wf(),
        hb.wf(),
        remainder.bounded(SWEEP_REM_LIM as int),
        hb.x2 - hb.x1 <= crate::geom::DIM_LIM,
        hb.y2 - hb.y1 <= crate::geom::DIM_LIM,
        -phys::POS_LIM - SWEEP_STEP_LIM <= hb.x1 + (hb.x2 - hb.x1) / 2 <= phys::POS_LIM
            + SWEEP_STEP_LIM,
        -phys::POS_LIM - SWEEP_STEP_LIM <= hb.y1 + (hb.y2 - hb.y1) / 2 <= phys::POS_LIM
            + SWEEP_STEP_LIM,
    ensures
        ({
            let axis_rem: int = if horiz {
                remainder.x as int
            } else {
                remainder.y as int
            };
            let delta: int = fx::fx_round_spec(axis_rem);
            let c0x: int = hb.x1 + (hb.x2 - hb.x1) / 2;
            let c0y: int = hb.y1 + (hb.y2 - hb.y1) / 2;
            let outcome = sweep_rec(
                index.entries@,
                old(cache).entries@,
                world.bodies@,
                me,
                c0x,
                c0y,
                hb.x2 - hb.x1,
                hb.y2 - hb.y1,
                horiz,
                fx::sgn_spec(delta),
                fx::abs_spec(delta) as nat,
            );
            &&& r.new_center.x == outcome.0.0
            &&& r.new_center.y == outcome.0.1
            &&& r.bonk == match outcome.1 {
                Some(e) => Some((e, delta > 0)),
                None => None::<(Entity, bool)>,
            }
            &&& r.remainder.x == if horiz {
                remainder.x - delta * SCALE
            } else {
                remainder.x as int
            }
            &&& r.remainder.y == if horiz {
                remainder.y as int
            } else {
                remainder.y - delta * SCALE
            }
            &&& (if horiz {
                -fx::HALF_SCALE <= r.remainder.x <= fx::HALF_SCALE
            } else {
                -fx::HALF_SCALE <= r.remainder.y <= fx::HALF_SCALE
            })
            &&& final(cache).entries@ == match outcome.1 {
                Some(e) => old(cache).entries@.push(
                    CacheEntry {
                        a: pair_lo(me, e),
                        b: pair_hi(me, e),
                        norm_x: if horiz {
                            fx::sgn_spec(delta) as i32
                        } else {
                            0
                        },
                        norm_y: if horiz {
                            0
                        } else {
                            fx::sgn_spec(delta) as i32
                        },
                    },
                ),
                None => old(cache).entries@,
            }
            &&& (outcome.1 is None ==> if horiz {
                outcome.0.0 == c0x + delta && outcome.0.1 == c0y
            } else {
                outcome.0.0 == c0x && outcome.0.1 == c0y + delta
            })
            &&& -SWEEP_STEP_LIM <= r.new_center.x - c0x <= SWEEP_STEP_LIM
            &&& -SWEEP_STEP_LIM <= r.new_center.y - c0y <= SWEEP_STEP_LIM
        }),
        final(cache).wf(),
{
    let ghost entries: Seq<EntityAABB> = index.entries@;
    let ghost cache0: Seq<CacheEntry> = cache.entries@;
    let ghost bodies: Seq<Body> = world.bodies@;
    let c: (i32, i32) = hb.center();
    let w: i32 = hb.w();
    let h: i32 = hb.h();
    let mut pos_x: i32 = c.0;
    let mut pos_y: i32 = c.1;
    let axis_rem: i64 = if horiz {
        remainder.x
    } else {
        remainder.y
    };
    let delta: i64 = fx::fx_round(axis_rem);
    proof {
        fx::lemma_round_close(axis_rem as int);
    }
    let mut rem: FxVec2 = remainder;
    if horiz {
        rem.x = rem.x - delta * SCALE;
    } else {
        rem.y = rem.y - delta * SCALE;
    }
    let sign: i32 = if delta > 0 {
        1
    } else if delta < 0 {
        -1
    } else {
        0
    };
    let ghost steps0: nat = fx::abs_spec(delta as int) as nat;
    let mut steps: i64 = if delta >= 0 {
        delta
    } else {
        -delta
    };
    let ghost c0x: int = c.0 as int;
    let ghost c0y: int = c.1 as int;
    let ghost target = sweep_rec(
        entries,
        cache0,
        bodies,
        me,
        c0x,
        c0y,
        w as int,
        h as int,
        horiz,
        sign as int,
        steps0,
    );
    while steps > 0
        invariant
            crate::world::ids_distinct(world.bodies@),
            cache.wf(),
            cache.entries@ == cache0,
            entries == index.entries@,
            bodies == world.bodies@,
            0 <= steps <= SWEEP_STEP_LIM,
            steps0 <= SWEEP_STEP_LIM,
            -1 <= sign <= 1,
            sign != 0 || steps == 0,
            0 <= w <= crate::geom::DIM_LIM,
            0 <= h <= crate::geom::DIM_LIM,
            pos_x as int == if horiz {
                c0x + sign * (steps0 - steps)
            } else {
                c0x
            },
            pos_y as int == if horiz {
                c0y
            } else {
                c0y + sign * (steps0 - steps)
            },
            -phys::POS_LIM - SWEEP_STEP_LIM <= c0x <= phys::POS_LIM + SWEEP_STEP_LIM,
            -phys::POS_LIM - SWEEP_STEP_LIM <= c0y <= phys::POS_LIM + SWEEP_STEP_LIM,
            steps <= steps0,
            target == sweep_rec(
                entries,
                cache0,
                bodies,
                me,
                pos_x as int,
                pos_y as int,
                w as int,
                h as int,
                horiz,
                sign as int,
                steps as nat,
            ),
        decreases steps,
    {
        proof {
            fx::lemma_mul_bound(sign as int, steps0 - steps, 1, SWEEP_STEP_LIM as int);
        }
        let nx: i32 = if horiz {
            pos_x + sign
        } else {
            pos_x
        };
        let ny: i32 = if horiz {
            pos_y
        } else {
            pos_y + sign
        };
        let pb: Hitbox = Hitbox::new(nx, ny, w, h);
        let found: Option<Entity> = find_blocker(index, pb, cache, world, me);
        match found {
            Some(other) => {
                proof {
                    lemma_first_blocker_distinct(entries, pb, cache0, bodies, me);
                    assert(target == ((pos_x as int, pos_y as int), Some(other)));
                }
                let (norm_x, norm_y): (i32, i32) = if horiz {
                    (sign, 0)
                } else {
                    (0, sign)
                };
                cache.insert(me, other, norm_x, norm_y);
                return AxisMove {
                    remainder: rem,
                    new_center: IVec2 { x: pos_x, y: pos_y },
                    bonk: Some((other, delta > 0)),
                };
            },
            None => {
                proof {
                    assert((sign as int) * ((steps0 - steps) + 1) == (sign as int) * (steps0
                        - steps) + (sign as int)) by (nonlinear_arith);
                }
                pos_x = nx;
                pos_y = ny;
                steps = steps - 1;
            },
        }
    }
    proof {
        fx::lemma_mul_bound(sign as int, steps0 as int, 1, SWEEP_STEP_LIM as int);
        assert((sign as int) * (steps0 as int) == fx::fx_round_spec(axis_rem as int)) by {
            if delta > 0 {
                assert((sign as int) * (steps0 as int) == delta as int) by (nonlinear_arith)
                    requires
                        sign as int == 1,
                        steps0 as int == delta as int,
                ;
            } else if delta < 0 {
                assert((sign as int) * (steps0 as int) == delta as int) by (nonlinear_arith)
                    requires
                        sign as int == -1,
                        steps0 as int == -(delta as int),
                ;
            } else {
                assert((sign as int) * (steps0 as int) == 0) by (nonlinear_arith)
                    requires
                        sign as int == 0,
                ;
            }
        }
    }
    AxisMove { remainder: rem, new_center: IVec2 { x: pos_x, y: pos_y }, bonk: None }
}

/// When the search reports a blocker, the blocker differs from the swept
/// body: a cached pair is strictly ordered, and a collider match excludes
/// the body itself.
pub proof fn lemma_first_blocker_distinct(
    entries: Seq<EntityAABB>,
    pb: Hitbox,
    cache: Seq<CacheEntry>,
    bodies: Seq<Body>,
    me: Entity,
)
    requires
        forall|i: int| 0 <= i < cache.len() ==> (#[trigger] cache[i]).a < cache[i].b,
        first_blocker(entries, pb, cache, bodies, me) is Some,
    ensures
        first_blocker(entries, pb, cache, bodies, me)->0 != me,
    decreases entries.len(),
{
    if entries.len() > 0 {
        if entry_hits(entries[0], pb, cache, bodies, me) {
            if cache_get_spec(cache, me, entries[0].e) is Some {
                lemma_cache_get_distinct(cache, me, entries[0].e);
            }
        } else {
            lemma_first_blocker_distinct(
                entries.subrange(1, entries.len() as int),
                pb,
                cache,
                bodies,
                me,
            );
        }
    }
}


/// The candidate box `j` pixels along the sweep direction from the
/// starting center.
pub open spec fn step_box(
    cx: int,
    cy: int,
    w: int,
    h: int,
    horiz: bool,
    sign: int,
    j: int,
) -> Hitbox {
    Hitbox::new_spec(
        if horiz {
            cx + sign * j
        } else {
            cx
        },
        if horiz {
            cy
        } else {
            cy + sign * j
        },
        w,
        h,
    )
}

/// The no-tunneling law: a sweep commits only steps whose boxes are free
/// of blockers, never skipping a blocked pixel, and when it reports a
/// blocker the very next pixel's box is blocked by exactly that body — the
/// swept body stops adjacent to the obstacle however large the intended
/// movement was.
pub proof fn lemma_no_tunneling(
    entries: Seq<EntityAABB>,
    cache: Seq<CacheEntry>,
    bodies: Seq<Body>,
    me: Entity,
    cx: int,
    cy: int,
    w: int,
    h: int,
    horiz: bool,
    sign: int,
    steps: nat,
)
    requires
        sign == 1 || sign == -1 || (sign == 0 && steps == 0),
    ensures
        ({
            let r = sweep_rec(entries, cache, bodies, me, cx, cy, w, h, horiz, sign, steps);
            let ex: int = if horiz {
                r.0.0
            } else {
                r.0.1
            };
            let start: int = if horiz {
                cx
            } else {
                cy
            };
            let m: int = sign * (ex - start);
            &&& (if horiz {
                r.0.1 == cy
            } else {
                r.0.0 == cx
            })
            &&& 0 <= m <= steps
            &&& forall|j: int|
                1 <= j <= m ==> first_blocker(
                    entries,
                    #[trigger] step_box(cx, cy, w, h, horiz, sign, j),
                    cache,
                    bodies,
                    me,
                ) is None
            &&& r.1 is Some ==> first_blocker(
                entries,
                step_box(cx, cy, w, h, horiz, sign, m + 1),
                cache,
                bodies,
                me,
            ) == r.1
            &&& r.1 is None ==> m == steps
        }),
    decreases steps,
{
    let r = sweep_rec(entries, cache, bodies, me, cx, cy, w, h, horiz, sign, steps);
    if steps == 0 {
        assert(sign * 0 == 0) by (nonlinear_arith);
    } else {
        let nx: int = if horiz {
            cx + sign
        } else {
            cx
        };
        let ny: int = if horiz {
            cy
        } else {
            cy + sign
        };
        assert(sign * 1 == sign) by (nonlinear_arith);
        assert(step_box(cx, cy, w, h, horiz, sign, 1) == Hitbox::new_spec(nx, ny, w, h));
        let pb = Hitbox::new_spec(nx, ny, w, h);
        match first_blocker(entries, pb, cache, bodies, me) {
            Some(e) => {
                assert(sign * (if horiz { cx } else { cy } - if horiz { cx } else { cy }) == 0)
                    by (nonlinear_arith);
                assert(sign * 0 + 1 == 1);
            },
            None => {
                lemma_no_tunneling(
                    entries,
                    cache,
                    bodies,
                    me,
                    nx,
                    ny,
                    w,
                    h,
                    horiz,
                    sign,
                    (steps - 1) as nat,
                );
                let rr = sweep_rec(
                    entries,
                    cache,
                    bodies,
                    me,
                    nx,
                    ny,
                    w,
                    h,
                    horiz,
                    sign,
                    (steps - 1) as nat,
                );
                assert(r == rr);
                let ex: int = if horiz {
                    r.0.0
                } else {
                    r.0.1
                };
                let start: int = if horiz {
                    cx
                } else {
                    cy
                };
                let nstart: int = if horiz {
                    nx
                } else {
                    ny
                };
                let m1: int = sign * (ex - nstart);
                let m: int = sign * (ex - start);
                assert(m == m1 + sign * sign) by (nonlinear_arith)
                    requires
                        m == sign * (ex - start),
                        m1 == sign * (ex - nstart),
                        nstart == start + sign,
                ;
                assert(sign * sign == 1) by (nonlinear_arith)
                    requires
                        sign == 1 || sign == -1,
                ;
                assert forall|j: int| 1 <= j <= m implies first_blocker(
                    entries,
                    #[trigger] step_box(cx, cy, w, h, horiz, sign, j),
                    cache,
                    bodies,
                    me,
                ) is None by {
                    if j >= 2 {
                        assert(first_blocker(
                            entries,
                            step_box(nx, ny, w, h, horiz, sign, j - 1),
                            cache,
                            bodies,
                            me,
                        ) is None);
                        assert(start + sign * j == nstart + sign * (j - 1)) by (nonlinear_arith)
                            requires
                                nstart == start + sign,
                        ;
                        assert(step_box(cx, cy, w, h, horiz, sign, j) == step_box(
                            nx,
                            ny,
                            w,
                            h,
                            horiz,
                            sign,
                            j - 1,
                        ));
                    }
                }
                if r.1 is Some {
                    assert(first_blocker(
                        entries,
                        step_box(nx, ny, w, h, horiz, sign, m1 + 1),
                        cache,
                        bodies,
                        me,
                    ) == r.1);
                    assert(start + sign * (m + 1) == nstart + sign * (m1 + 1)) by (nonlinear_arith)
                        requires
                            nstart == start + sign,
                            m == m1 + 1,
                    ;
                    assert(step_box(cx, cy, w, h, horiz, sign, m + 1) == step_box(
                        nx,
                        ny,
                        w,
                        h,
                        horiz,
                        sign,
                        m1 + 1,
                    ));
                }
            },
        }
    }
}


/// The contacts reported after both axis sweeps of one body. When both
/// axes blocked on the same body, exactly one compound (diagonal)
/// direction is reported, so one pair never produces two conflicting
/// contacts in a tick; the conflicting-sign corner defaults to
/// north-east. When they blocked on different bodies, both contacts are
/// reported.
pub open spec fn bonkees_spec(
    bx: Option<(Entity, bool)>,
    by: Option<(Entity, bool)>,
) -> Seq<(Entity, Direction8)> {
    match (bx, by) {
        (Some(x), None) => seq![
            (
                x.0,
                if x.1 {
                    Direction8::East
                } else {
                    Direction8::West
                },
            ),
        ],
        (None, Some(y)) => seq![
            (
                y.0,
                if y.1 {
                    Direction8::South
                } else {
                    Direction8::North
                },
            ),
        ],
        (None, None) => Seq::empty(),
        (Some(x), Some(y)) => {
            if x.0 == y.0 {
                let dir = if y.1 && x.1 {
                    Direction8::SouthEast
                } else if y.1 && !x.1 {
                    Direction8::SouthWest
                } else {
                    Direction8::NorthEast
                };
                seq![(x.0, dir)]
            } else {
                seq![
                    (
                        x.0,
                        if x.1 {
                            Direction8::East
                        } else {
                            Direction8::West
                        },
                    ),
                    (
                        y.0,
                        if y.1 {
                            Direction8::South
                        } else {
                            Direction8::North
                        },
                    ),
                ]
            }
        },
    }
}

/// Turn the two axis results into the list of contacts to report.
pub fn calculate_bonkees(bonk_x: &AxisMove, bonk_y: &AxisMove) -> (r: Vec<(Entity, Direction8)>)
    ensures
        r@ == bonkees_spec(bonk_x.bonk, bonk_y.bonk),
        match (bonk_x.bonk, bonk_y.bonk) {
            (Some(x), Some(y)) => x.0 == y.0 ==> r@.len() == 1,
            _ => true,
        },
{
    let mut r: Vec<(Entity, Direction8)> = Vec::new();
    match (bonk_x.bonk, bonk_y.bonk) {
        (Some(x), None) => {
            r.push((x.0, if x.1 { Direction8::East } else { Direction8::West }));
        },
        (None, Some(y)) => {
            r.push((y.0, if y.1 { Direction8::South } else { Direction8::North }));
        },
        (None, None) => {},
        (Some(x), Some(y)) => {
            if x.0 == y.0 {
                let dir: Direction8 = if y.1 && x.1 {
                    Direction8::SouthEast
                } else if y.1 && !x.1 {
                    Direction8::SouthWest
                } else {
                    Direction8::NorthEast
                };
                r.push((x.0, dir));
            } else {
                r.push((x.0, if x.1 { Direction8::East } else { Direction8::West }));
                r.push((y.0, if y.1 { Direction8::South } else { Direction8::North }));
            }
        },
    }
    proof {
        assert(r@ =~= bonkees_spec(bonk_x.bonk, bonk_y.bonk));
    }
    r
}


/// One emitted contact: the mover, the body it was blocked by, and the
/// direction from the mover toward that body. The mover receives this as
/// a "you hit" notification and the blocked body as a "you were hit"
/// notification, both carrying the same direction.
#[derive(Clone, Copy, Debug, PartialEq, Eq, Structural)]
pub struct HitRecord {
    pub bonker: Entity,
    pub bonkee: Entity,
    pub normal: Direction8,
}

/// The index of the body carrying a handle (meaningful only when some
/// body does, and unique when handles are distinct).
pub open spec fn body_index(s: Seq<Body>, e: Entity) -> int {
    choose|i: int| 0 <= i < s.len() && (#[trigger] s[i]).id == e
}

/// Everything one axis sweep changes: the remainder, the center, the
/// reported contact and the cache, packaged from [`sweep_rec`].
pub open spec fn axis_move_spec(
    entries: Seq<EntityAABB>,
    cache: Seq<CacheEntry>,
    bodies: Seq<Body>,
    me: Entity,
    rem_x: int,
    rem_y: int,
    cx: int,
    cy: int,
    w: int,
    h: int,
    horiz: bool,
) -> ((int, int), (int, int), Option<(Entity, bool)>, Seq<CacheEntry>) {
    let axis_rem: int = if horiz {
        rem_x
    } else {
        rem_y
    };
    let delta: int = fx::fx_round_spec(axis_rem);
    let outcome = sweep_rec(
        entries,
        cache,
        bodies,
        me,
        cx,
        cy,
        w,
        h,
        horiz,
        fx::sgn_spec(delta),
        fx::abs_spec(delta) as nat,
    );
    let rem2: (int, int) = if horiz {
        (rem_x - delta * (SCALE as int), rem_y)
    } else {
        (rem_x, rem_y - delta * (SCALE as int))
    };
    let bonk: Option<(Entity, bool)> = match outcome.1 {
        Some(e) => Some((e, delta > 0)),
        None => None,
    };
    let cache2: Seq<CacheEntry> = match outcome.1 {
        Some(e) => cache.push(
            CacheEntry {
                a: pair_lo(me, e),
                b: pair_hi(me, e),
                norm_x: if horiz {
                    fx::sgn_spec(delta) as i32
                } else {
                    0
                },
                norm_y: if horiz {
                    0
                } else {
                    fx::sgn_spec(delta) as i32
                },
            },
        ),
        None => cache,
    };
    (rem2, outcome.0, bonk, cache2)
}

/// What one "you hit" notification does to the mover: its touch memory
/// records the contact direction, and then, if it is a bonker, the
/// velocity component along any touched axis is removed.
pub open spec fn apply_send_hit(b: Body, d: Direction8) -> Body {
    let b1 = match b.kinematic {
        Some(ks) => Body { kinematic: Some(phys::record_touch_spec(ks, d)), ..b },
        None => b,
    };
    if b1.bonker && b1.kinematic is Some && b1.vel is Some {
        let ks = b1.kinematic->0;
        let v = b1.vel->0;
        Body {
            vel: Some(
                Velocitized {
                    vel: FxVec2 {
                        x: if phys::touching_any_horiz(ks) {
                            0
                        } else {
                            v.vel.x
                        },
                        y: if phys::touching_any_vert(ks) {
                            0
                        } else {
                            v.vel.y
                        },
                    },
                },
            ),
            ..b1
        }
    } else {
        b1
    }
}

/// All of a body's "you hit" notifications applied in order.
pub open spec fn apply_send_hits(b: Body, recs: Seq<(Entity, Direction8)>) -> Body
    decreases recs.len(),
{
    if recs.len() == 0 {
        b
    } else {
        apply_send_hits(apply_send_hit(b, recs[0].1), recs.subrange(1, recs.len() as int))
    }
}

/// What resolving one snapshot entry does to the world: if its body is
/// live and can move, both axis sweeps run (horizontal first), the body
/// takes its final pixel position and sub-pixel remainder, and each
/// reported contact refreshes its touch memory and (for a bonker) stops
/// it. Bodies without a mover, and entries whose body despawned, change
/// nothing.
pub open spec fn entry_step_spec(
    bodies: Seq<Body>,
    cache: Seq<CacheEntry>,
    entries: Seq<EntityAABB>,
    k: int,
) -> (Seq<Body>, Seq<CacheEntry>, Seq<HitRecord>) {
    let ent = entries[k];
    if !crate::world::body_with_id(bodies, ent.e) {
        (bodies, cache, Seq::empty())
    } else {
        let bi = body_index(bodies, ent.e);
        let b = bodies[bi];
        match b.mover {
            None => (bodies, cache, Seq::empty()),
            Some(m) => {
                let w: int = ent.hb.x2 - ent.hb.x1;
                let h: int = ent.hb.y2 - ent.hb.y1;
                let cx: int = ent.hb.x1 + w / 2;
                let cy: int = ent.hb.y1 + h / 2;
                let ax = axis_move_spec(
                    entries,
                    cache,
                    bodies,
                    ent.e,
                    m.remainder.x as int,
                    m.remainder.y as int,
                    cx,
                    cy,
                    w,
                    h,
                    true,
                );
                let ay = axis_move_spec(
                    entries,
                    ax.3,
                    bodies,
                    ent.e,
                    ax.0.0,
                    ax.0.1,
                    ax.1.0,
                    ax.1.1,
                    w,
                    h,
                    false,
                );
                let b1 = Body {
                    mover: Some(
                        Mover { remainder: FxVec2 { x: ay.0.0 as i64, y: ay.0.1 as i64 } },
                    ),
                    pos: Some(
                        Positioned { pos: IVec2 { x: ay.1.0 as i32, y: ay.1.1 as i32 } },
                    ),
                    ..b
                };
                let recs = bonkees_spec(ax.2, ay.2);
                let b2 = apply_send_hits(b1, recs);
                (
                    bodies.update(bi, b2),
                    ay.3,
                    recs.map_values(
                        |p: (Entity, Direction8)|
                            HitRecord { bonker: ent.e, bonkee: p.0, normal: p.1 },
                    ),
                )
            },
        }
    }
}


/// What the collision pass needs of every body: positions and dimensions
/// in bounds (for the snapshot) and movement remainders small enough for
/// the sweep.
pub open spec fn pass_ok(s: Seq<Body>) -> bool {
    crate::world::placements_ok(s) && movers_ok(s)
}

/// Every mover's remainder is small enough for the sweep.
pub open spec fn movers_ok(s: Seq<Body>) -> bool {
    forall|i: int|
        0 <= i < s.len() ==> match (#[trigger] s[i]).mover {
            Some(m) => m.remainder.bounded(SWEEP_REM_LIM as int),
            None => true,
        }
}

/// Every indexed entry has a well-formed box of bounded size whose center
/// is inside the world bounds.
pub open spec fn index_ok(s: Seq<EntityAABB>) -> bool {
    forall|k: int|
        0 <= k < s.len() ==> {
            let hb = (#[trigger] s[k]).hb;
            &&& hb.wf()
            &&& hb.x2 - hb.x1 <= crate::geom::DIM_LIM
            &&& hb.y2 - hb.y1 <= crate::geom::DIM_LIM
            &&& -phys::POS_LIM <= hb.x1 + (hb.x2 - hb.x1) / 2 <= phys::POS_LIM
            &&& -phys::POS_LIM <= hb.y1 + (hb.y2 - hb.y1) / 2 <= phys::POS_LIM
        }
}

/// The box built around a center has exactly that center back.
pub proof fn lemma_new_spec_center(x: int, y: int, w: int, h: int)
    requires
        0 <= w,
        0 <= h,
        -crate::geom::COORD_LIM / 2 < x < crate::geom::COORD_LIM / 2,
        -crate::geom::COORD_LIM / 2 < y < crate::geom::COORD_LIM / 2,
        w <= crate::geom::DIM_LIM,
        h <= crate::geom::DIM_LIM,
    ensures
        ({
            let hb = Hitbox::new_spec(x, y, w, h);
            &&& hb.x2 - hb.x1 == w
            &&& hb.y2 - hb.y1 == h
            &&& hb.x1 + (hb.x2 - hb.x1) / 2 == x
            &&& hb.y1 + (hb.y2 - hb.y1) / 2 == y
            &&& hb.wf()
        }),
{
    fx::lemma_div_shrinks(w, 2);
    fx::lemma_div_shrinks(h, 2);
}

/// A snapshot built from bodies whose positions and dimensions are in
/// bounds satisfies [`index_ok`].
pub proof fn lemma_snapshot_ok(s: Seq<Body>)
    requires
        pass_ok(s),
    ensures
        index_ok(crate::spatial::snapshot_spec(s)),
    decreases s.len(),
{
    if s.len() > 0 {
        assert(pass_ok(s.drop_last())) by {
            assert(forall|i: int|
                0 <= i < s.drop_last().len() ==> #[trigger] s.drop_last()[i] == s[i]);
        }
        lemma_snapshot_ok(s.drop_last());
        let b = s.last();
        assert(s[s.len() - 1] == b);
        let r = crate::spatial::snapshot_spec(s);
        let rest = crate::spatial::snapshot_spec(s.drop_last());
        if b.pos is Some && b.dims is Some {
            let p = b.pos->0;
            let d = b.dims->0;
            lemma_new_spec_center(p.pos.x as int, p.pos.y as int, d.w as int, d.h as int);
        }
        assert forall|k: int| 0 <= k < r.len() implies {
            let hb = (#[trigger] r[k]).hb;
            &&& hb.wf()
            &&& hb.x2 - hb.x1 <= crate::geom::DIM_LIM
            &&& hb.y2 - hb.y1 <= crate::geom::DIM_LIM
            &&& -phys::POS_LIM <= hb.x1 + (hb.x2 - hb.x1) / 2 <= phys::POS_LIM
            &&& -phys::POS_LIM <= hb.y1 + (hb.y2 - hb.y1) / 2 <= phys::POS_LIM
        } by {
            if k < rest.len() {
                assert(r[k] == rest[k]);
            }
        }
    }
}

/// Apply one contact notification to the mover's own components.
fn apply_send_hit_exec(b: Body, d: Direction8) -> (r: Body)
    ensures
        r == apply_send_hit(b, d),
{
    let mut b1: Body = b;
    match b.kinematic {
        Some(ks) => {
            let mut ks2 = ks;
            ks2.record_touch(d);
            b1.kinematic = Some(ks2);
        },
        None => {},
    }
    if b1.bonker {
        match (b1.kinematic, b1.vel) {
            (Some(ks2), Some(v)) => {
                let zero_h: bool = ks2.north_west > 0 || ks2.west > 0 || ks2.south_west > 0
                    || ks2.north_east > 0 || ks2.east > 0 || ks2.south_east > 0;
                let zero_v: bool = ks2.north_west > 0 || ks2.north > 0 || ks2.north_east > 0
                    || ks2.south_west > 0 || ks2.south > 0 || ks2.south_east > 0;
                let nx: i64 = if zero_h {
                    0
                } else {
                    v.vel.x
                };
                let ny: i64 = if zero_v {
                    0
                } else {
                    v.vel.y
                };
                b1.vel = Some(Velocitized { vel: FxVec2 { x: nx, y: ny } });
            },
            _ => {},
        }
    }
    b1
}

/// Resolve one snapshot entry against the live world, as
/// [`entry_step_spec`] describes.
#[verifier::loop_isolation(false)]
#[verifier::rlimit(60)]
fn resolve_entry(
    world: &mut World,
    index: &SpatialIndex,
    cache: &mut BonkCache,
    k: usize,
    hits: &mut Vec<HitRecord>,
) -> (r: ())
    requires
        crate::world::ids_distinct(old(world).bodies@),
        movers_ok(old(world).bodies@),
        old(cache).wf(),
        index_ok(index.entries@),
        k < index.entries@.len(),
    ensures
        ({
            let step = entry_step_spec(
                old(world).bodies@,
                old(cache).entries@,
                index.entries@,
                k as int,
            );
            &&& final(world).bodies@ == step.0
            &&& final(cache).entries@ == step.1
            &&& final(hits)@ == old(hits)@ + step.2
        }),
        final(world).pending_spawns@ == old(world).pending_spawns@,
        final(world).pending_despawns@ == old(world).pending_despawns@,
        final(world).next_id == old(world).next_id,
        final(world).bodies@.len() == old(world).bodies@.len(),
        forall|i: int|
            0 <= i < final(world).bodies@.len() ==> (#[trigger] final(world).bodies@[i]).id == old(
                world,
            ).bodies@[i].id,
        crate::world::ids_distinct(final(world).bodies@),
        movers_ok(final(world).bodies@),
        final(cache).wf(),
{
    let ghost bodies0: Seq<Body> = world.bodies@;
    let ghost cache0: Seq<CacheEntry> = cache.entries@;
    let ghost hits0: Seq<HitRecord> = hits@;
    let ghost step = entry_step_spec(bodies0, cache0, index.entries@, k as int);
    let ent: EntityAABB = index.entries[k];
    match world.find_index(ent.e) {
        None => {
            proof {
                assert(hits@ =~= hits0 + step.2);
            }
        },
        Some(bi) => {
            proof {
                assert(crate::world::body_with_id(bodies0, ent.e));
                let j = body_index(bodies0, ent.e);
                assert(0 <= j < bodies0.len() && bodies0[j].id == ent.e);
                if j != bi {
                    assert(bodies0[j].id != bodies0[bi as int].id);
                }
                assert(body_index(bodies0, ent.e) == bi as int);
            }
            let b: Body = world.bodies[bi];
            match b.mover {
                None => {
                    proof {
                        assert(hits@ =~= hits0 + step.2);
                    }
                },
                Some(m) => {
                    let w: i32 = ent.hb.w();
                    let h: i32 = ent.hb.h();
                    let ax: AxisMove = do_axis_movement(
                        world,
                        ent.e,
                        m.remainder,
                        ent.hb,
                        true,
                        index,
                        cache,
                    );
                    let ghost axs = axis_move_spec(
                        index.entries@,
                        cache0,
                        bodies0,
                        ent.e,
                        m.remainder.x as int,
                        m.remainder.y as int,
                        ent.hb.x1 + (ent.hb.x2 - ent.hb.x1) / 2,
                        ent.hb.y1 + (ent.hb.y2 - ent.hb.y1) / 2,
                        w as int,
                        h as int,
                        true,
                    );
                    proof {
                        assert(ax.remainder.x == axs.0.0 && ax.remainder.y == axs.0.1);
                        assert(ax.new_center.x == axs.1.0 && ax.new_center.y == axs.1.1);
                        assert(ax.bonk == axs.2);
                        assert(cache.entries@ == axs.3);
                    }
                    let hb2: Hitbox = Hitbox::new(ax.new_center.x, ax.new_center.y, w, h);
                    proof {
                        lemma_new_spec_center(
                            ax.new_center.x as int,
                            ax.new_center.y as int,
                            w as int,
                            h as int,
                        );
                    }
                    let ay: AxisMove = do_axis_movement(
                        world,
                        ent.e,
                        ax.remainder,
                        hb2,
                        false,
                        index,
                        cache,
                    );
                    let ghost ays = axis_move_spec(
                        index.entries@,
                        axs.3,
                        bodies0,
                        ent.e,
                        axs.0.0,
                        axs.0.1,
                        axs.1.0,
                        axs.1.1,
                        w as int,
                        h as int,
                        false,
                    );
                    proof {
                        assert(ay.remainder.x == ays.0.0 && ay.remainder.y == ays.0.1);
                        assert(ay.new_center.x == ays.1.0 && ay.new_center.y == ays.1.1);
                        assert(ay.bonk == ays.2);
                        assert(cache.entries@ == ays.3);
                    }
                    let mut b2: Body = b;
                    b2.mover = Some(Mover { remainder: ay.remainder });
                    b2.pos = Some(Positioned { pos: ay.new_center });
                    let recs: Vec<(Entity, Direction8)> = calculate_bonkees(&ax, &ay);
                    let ghost recs_seq: Seq<(Entity, Direction8)> = recs@;
                    let ghost b1: Body = b2;
                    let nrec: usize = recs.len();
                    let mut i: usize = 0;
                    proof {
                        assert(recs_seq.subrange(0, nrec as int) == recs_seq);
                    }
                    while i < nrec
                        invariant
                            i <= nrec,
                            nrec == recs_seq.len(),
                            recs@ == recs_seq,
                            apply_send_hits(b1, recs_seq) == apply_send_hits(
                                b2,
                                recs_seq.subrange(i as int, nrec as int),
                            ),
                            hits@ == hits0 + recs_seq.take(i as int).map_values(
                                |p: (Entity, Direction8)|
                                    HitRecord { bonker: ent.e, bonkee: p.0, normal: p.1 },
                            ),
                        decreases nrec - i,
                    {
                        let (bonked, norm): (Entity, Direction8) = recs[i];
                        proof {
                            let tail = recs_seq.subrange(i as int, nrec as int);
                            assert(tail[0] == recs_seq[i as int]);
                            assert(tail.subrange(1, tail.len() as int) == recs_seq.subrange(
                                i as int + 1,
                                nrec as int,
                            ));
                        }
                        b2 = apply_send_hit_exec(b2, norm);
                        hits.push(HitRecord { bonker: ent.e, bonkee: bonked, normal: norm });
                        proof {
                            let f = |p: (Entity, Direction8)|
                                HitRecord { bonker: ent.e, bonkee: p.0, normal: p.1 };
                            assert(recs_seq.take(i as int + 1).map_values(f) =~= recs_seq.take(
                                i as int,
                            ).map_values(f).push(f(recs_seq[i as int])));
                        }
                        i = i + 1;
                    }
                    proof {
                        assert(recs_seq.subrange(nrec as int, nrec as int).len() == 0);
                        assert(recs_seq.take(nrec as int) == recs_seq);
                    }
                    world.bodies[bi] = b2;
                    proof {
                        lemma_apply_hits_keeps_mover(b1, recs_seq);
                        assert(b2.id == bodies0[bi as int].id);
                        assert(world.bodies@ == bodies0.update(bi as int, b2));
                        assert(step.0 == bodies0.update(bi as int, b2));
                        assert(crate::world::ids_distinct(world.bodies@)) by {
                            assert(forall|i2: int|
                                0 <= i2 < world.bodies@.len() ==> (#[trigger] world.bodies@[i2]).id
                                    == bodies0[i2].id);
                        }
                        assert(movers_ok(world.bodies@)) by {
                            assert(forall|i2: int|
                                0 <= i2 < world.bodies@.len() && i2 != bi as int
                                    ==> #[trigger] world.bodies@[i2] == bodies0[i2]);
                            assert(world.bodies@[bi as int].mover == b2.mover);
                            assert(apply_send_hits(b1, recs_seq).mover == b1.mover) by {
                                lemma_apply_hits_keeps_mover(b1, recs_seq);
                            }
                        }
                        assert(hits@ =~= hits0 + step.2);
                    }
                },
            }
        },
    }
}

/// Contact notifications never change the mover component itself.
pub proof fn lemma_apply_hits_keeps_mover(b: Body, recs: Seq<(Entity, Direction8)>)
    ensures
        apply_send_hits(b, recs).mover == b.mover,
        apply_send_hits(b, recs).id == b.id,
    decreases recs.len(),
{
    if recs.len() > 0 {
        lemma_apply_hits_keeps_mover(
            apply_send_hit(b, recs[0].1),
            recs.subrange(1, recs.len() as int),
        );
    }
}


/// The world after the first `k` snapshot entries have been resolved, with
/// the cache contents and the contacts emitted so far.
pub open spec fn pass_rec(
    entries: Seq<EntityAABB>,
    bodies: Seq<Body>,
    cache: Seq<CacheEntry>,
    k: nat,
) -> (Seq<Body>, Seq<CacheEntry>, Seq<HitRecord>)
    decreases k,
{
    if k == 0 {
        (bodies, cache, Seq::empty())
    } else {
        let prev = pass_rec(entries, bodies, cache, (k - 1) as nat);
        let step = entry_step_spec(prev.0, prev.1, entries, k - 1);
        (step.0, step.1, prev.2 + step.2)
    }
}

/// What one collision pass over a world does: a snapshot of every tracked
/// body is taken, then each snapshot entry is resolved in spawn order
/// against a cache that starts empty. The result is the moved bodies and
/// the contacts emitted, in order.
pub open spec fn collision_pass_spec(bodies: Seq<Body>) -> (Seq<Body>, Seq<HitRecord>) {
    let entries = crate::spatial::snapshot_spec(bodies);
    let r = pass_rec(entries, bodies, Seq::empty(), entries.len());
    (r.0, r.2)
}

/// Run one collision pass: rebuild the spatial index, then sweep every
/// tracked body that can move, horizontal axis first, and return the
/// contacts. Each contact stands for the pair of notifications the bodies
/// receive: the mover is told what it hit and the blocked body is told
/// what hit it, with the same mover-to-blocked direction.
#[verifier::loop_isolation(false)]
pub fn do_collision(world: &mut World) -> (r: Vec<HitRecord>)
    requires
        crate::world::ids_distinct(old(world).bodies@),
        pass_ok(old(world).bodies@),
    ensures
        final(world).bodies@ == collision_pass_spec(old(world).bodies@).0,
        r@ == collision_pass_spec(old(world).bodies@).1,
        final(world).pending_spawns@ == old(world).pending_spawns@,
        final(world).pending_despawns@ == old(world).pending_despawns@,
        final(world).next_id == old(world).next_id,
        final(world).bodies@.len() == old(world).bodies@.len(),
        forall|i: int|
            0 <= i < final(world).bodies@.len() ==> (#[trigger] final(world).bodies@[i]).id == old(
                world,
            ).bodies@[i].id,
        crate::world::ids_distinct(final(world).bodies@),
        movers_ok(final(world).bodies@),
{
    let ghost bodies0: Seq<Body> = world.bodies@;
    let index: SpatialIndex = SpatialIndex::rebuild(world);
    proof {
        lemma_snapshot_ok(bodies0);
        assert(movers_ok(bodies0));
    }
    let mut cache: BonkCache = BonkCache::new();
    let mut hits: Vec<HitRecord> = Vec::new();
    let n: usize = index.entries.len();
    let mut i: usize = 0;
    while i < n
        invariant
            i <= n,
            n == index.entries@.len(),
            index.entries@ == crate::spatial::snapshot_spec(bodies0),
            (world.bodies@, cache.entries@, hits@) == pass_rec(
                index.entries@,
                bodies0,
                Seq::<CacheEntry>::empty(),
                i as nat,
            ),
            world.pending_spawns@ == old(world).pending_spawns@,
            world.pending_despawns@ == old(world).pending_despawns@,
            world.next_id == old(world).next_id,
            crate::world::ids_distinct(world.bodies@),
            movers_ok(world.bodies@),
            world.bodies@.len() == bodies0.len(),
            forall|i2: int|
                0 <= i2 < world.bodies@.len() ==> (#[trigger] world.bodies@[i2]).id
                    == bodies0[i2].id,
            cache.wf(),
            index_ok(index.entries@),
        decreases n - i,
    {
        resolve_entry(world, &index, &mut cache, i, &mut hits);
        i = i + 1;
    }
    hits
}


/// The sub-pixel conservation law: an unblocked axis sweep moves nothing
/// to or from the body's total intended position. The final center
/// (scaled up) plus the remaining sub-pixel remainder equals the starting
/// center plus the starting remainder, exactly; summed over any number of
/// collision-free ticks, whole-pixel movement plus leftover remainder
/// equals the total accumulated displacement.
pub proof fn lemma_subpixel_conservation(
    entries: Seq<EntityAABB>,
    cache: Seq<CacheEntry>,
    bodies: Seq<Body>,
    me: Entity,
    rem_x: int,
    rem_y: int,
    cx: int,
    cy: int,
    w: int,
    h: int,
    horiz: bool,
)
    ensures
        ({
            let r = axis_move_spec(entries, cache, bodies, me, rem_x, rem_y, cx, cy, w, h, horiz);
            &&& (r.2 is None && horiz ==> r.1.0 * (SCALE as int) + r.0.0 == cx * (SCALE as int)
                + rem_x && r.1.1 == cy && r.0.1 == rem_y)
            &&& (r.2 is None && !horiz ==> r.1.1 * (SCALE as int) + r.0.1 == cy * (SCALE as int)
                + rem_y && r.1.0 == cx && r.0.0 == rem_x)
        }),
{
    let axis_rem: int = if horiz {
        rem_x
    } else {
        rem_y
    };
    let delta: int = fx::fx_round_spec(axis_rem);
    let sign: int = fx::sgn_spec(delta);
    let steps: nat = fx::abs_spec(delta) as nat;
    if sign == 1 || sign == -1 || (sign == 0 && steps == 0) {
        lemma_no_tunneling(entries, cache, bodies, me, cx, cy, w, h, horiz, sign, steps);
        let outcome = sweep_rec(entries, cache, bodies, me, cx, cy, w, h, horiz, sign, steps);
        if outcome.1 is None {
            let ex: int = if horiz {
                outcome.0.0
            } else {
                outcome.0.1
            };
            let start: int = if horiz {
                cx
            } else {
                cy
            };
            assert(sign * (ex - start) == steps);
            if delta > 0 {
                assert(ex == start + delta) by (nonlinear_arith)
                    requires
                        sign * (ex - start) == steps,
                        sign == 1,
                        steps == delta,
                ;
            } else if delta < 0 {
                assert(ex == start + delta) by (nonlinear_arith)
                    requires
                        sign * (ex - start) == steps,
                        sign == -1,
                        steps == -delta,
                ;
            } else {
                assert(steps == 0);
                assert(outcome.0 == (cx, cy));
                assert(ex == start + delta);
            }
        }
    }
}

/// Conservation through a whole entry resolution: when neither axis
/// blocked, the body's final pixel position (scaled up) plus its final
/// remainder equals its starting center plus its starting remainder, on
/// both axes.
pub proof fn lemma_entry_conservation(
    entries: Seq<EntityAABB>,
    cache: Seq<CacheEntry>,
    bodies: Seq<Body>,
    me: Entity,
    rem_x: int,
    rem_y: int,
    cx: int,
    cy: int,
    w: int,
    h: int,
)
    ensures
        ({
            let ax = axis_move_spec(entries, cache, bodies, me, rem_x, rem_y, cx, cy, w, h, true);
            let ay = axis_move_spec(
                entries,
                ax.3,
                bodies,
                me,
                ax.0.0,
                ax.0.1,
                ax.1.0,
                ax.1.1,
                w,
                h,
                false,
            );
            ax.2 is None && ay.2 is None ==> {
                &&& ay.1.0 * (SCALE as int) + ay.0.0 == cx * (SCALE as int) + rem_x
                &&& ay.1.1 * (SCALE as int) + ay.0.1 == cy * (SCALE as int) + rem_y
            }
        }),
{
    let ax = axis_move_spec(entries, cache, bodies, me, rem_x, rem_y, cx, cy, w, h, true);
    lemma_subpixel_conservation(entries, cache, bodies, me, rem_x, rem_y, cx, cy, w, h, true);
    lemma_subpixel_conservation(
        entries,
        ax.3,
        bodies,
        me,
        ax.0.0,
        ax.0.1,
        ax.1.0,
        ax.1.1,
        w,
        h,
        false,
    );
}

} // verus!
