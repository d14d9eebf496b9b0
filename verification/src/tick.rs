//! The tick orchestrator: one fixed timestep of the whole simulation, in
//! the order the parts rely on. Stored velocities become movement
//! remainders and touch memory decays; the collision pass moves every
//! body and reports contacts; the player state machine consumes this
//! tick's contacts and controls; bodies age and timed bodies schedule
//! their despawn; finally the tick's structural changes are committed.

use vstd::prelude::*;
use crate::collision::HitRecord;
use crate::collision;
use crate::controls::ControlState;
use crate::fx;
use crate::phys::AgeTracker;
use crate::phys::LimitedTimeOffer;
use crate::phys::Mover;
use crate::phys::Velocitized;
use crate::phys;
use crate::player::PlayerController;
use crate::player;
use crate::spatial::SpatialIndex;
use crate::vec2::FxVec2;
use crate::world::Body;
use crate::world::ConfigurationError;
use crate::world::Entity;
use crate::world::World;
use crate::world::body_wf;

verus! {

/// What the kinematic phase does to one body: its velocity (times the
/// tick length) accumulates into its movement remainder, its touch memory
/// decays by one tick, and friction scales its velocity down.
pub open spec fn body_phase_a_spec(b: Body, dt: int) -> Body {
    let b1 = match (b.mover, b.vel) {
        (Some(m), Some(v)) => Body {
            mover: Some(
                Mover {
                    remainder: FxVec2 {
                        x: (m.remainder.x + fx::fx_mul_spec(v.vel.x as int, dt)) as i64,
                        y: (m.remainder.y + fx::fx_mul_spec(v.vel.y as int, dt)) as i64,
                    },
                },
            ),
            ..b
        },
        _ => b,
    };
    let b2 = match b1.kinematic {
        Some(ks) => Body { kinematic: Some(phys::decay_spec(ks)), ..b1 },
        None => b1,
    };
    match (b2.friction, b2.vel) {
        (Some(f), Some(v)) => Body {
            vel: Some(
                Velocitized {
                    vel: FxVec2 {
                        x: phys::friction_spec(v.vel.x as int, f.friction as int, dt) as i64,
                        y: phys::friction_spec(v.vel.y as int, f.friction as int, dt) as i64,
                    },
                },
            ),
            ..b2
        },
        _ => b2,
    }
}

/// The kinematic phase keeps a body's identity and placement, and leaves
/// its numbers within the collision pass's bounds.
pub proof fn lemma_phase_a_props(b: Body, dt: int)
    requires
        body_wf(b),
        phys::DT_MIN <= dt <= phys::DT_MAX,
    ensures
        ({
            let r = body_phase_a_spec(b, dt);
            &&& r.id == b.id
            &&& r.pos == b.pos
            &&& r.dims == b.dims
            &&& match r.mover {
                Some(m) => m.remainder.bounded(collision::SWEEP_REM_LIM as int),
                None => true,
            }
        }),
{
    match (b.mover, b.vel) {
        (Some(m), Some(v)) => {
            fx::lemma_mul_bound(v.vel.x as int, dt, phys::VEL_LIM as int, phys::DT_MAX as int);
            fx::lemma_mul_bound(v.vel.y as int, dt, phys::VEL_LIM as int, phys::DT_MAX as int);
            fx::lemma_trunc_div_bound((v.vel.x as int) * dt, crate::fx::SCALE as int);
            fx::lemma_trunc_div_bound((v.vel.y as int) * dt, crate::fx::SCALE as int);
        },
        _ => {},
    }
}

/// One body through the kinematic phase.
fn body_phase_a(b: Body, dt: i64) -> (r: Body)
    requires
        body_wf(b),
        phys::DT_MIN <= dt <= phys::DT_MAX,
    ensures
        r == body_phase_a_spec(b, dt as int),
{
    proof {
        lemma_phase_a_props(b, dt as int);
    }
    let mut b1: Body = b;
    match (b.mover, b.vel) {
        (Some(m), Some(v)) => {
            proof {
                fx::lemma_mul_bound(
                    v.vel.x as int,
                    dt as int,
                    phys::VEL_LIM as int,
                    phys::DT_MAX as int,
                );
                fx::lemma_mul_bound(
                    v.vel.y as int,
                    dt as int,
                    phys::VEL_LIM as int,
                    phys::DT_MAX as int,
                );
                fx::lemma_trunc_div_bound((v.vel.x as int) * (dt as int), crate::fx::SCALE as int);
                fx::lemma_trunc_div_bound((v.vel.y as int) * (dt as int), crate::fx::SCALE as int);
            }
            let dvx: i64 = fx::fx_mul(v.vel.x, dt);
            let dvy: i64 = fx::fx_mul(v.vel.y, dt);
            b1.mover = Some(
                Mover { remainder: FxVec2 { x: m.remainder.x + dvx, y: m.remainder.y + dvy } },
            );
        },
        _ => {},
    }
    match b1.kinematic {
        Some(ks) => {
            let mut ks2 = ks;
            ks2.decay();
            b1.kinematic = Some(ks2);
        },
        None => {},
    }
    match (b1.friction, b1.vel) {
        (Some(f), Some(v)) => {
            let mut v2 = v;
            f.apply(&mut v2, dt);
            b1.vel = Some(v2);
        },
        _ => {},
    }
    b1
}

/// What the bookkeeping phase does to one body: its age advances
/// (saturating), and a despawn timer at zero schedules the body's removal
/// while a running one counts down.
pub open spec fn body_tick_spec(b: Body) -> (Body, bool) {
    let b1 = match b.age {
        Some(a) => Body {
            age: Some(
                AgeTracker {
                    age: if a.age < u64::MAX {
                        (a.age + 1) as u64
                    } else {
                        a.age
                    },
                },
            ),
            ..b
        },
        None => b,
    };
    match b1.despawn_timer {
        Some(t) => if t.time_remaining == 0 {
            (b1, true)
        } else {
            (
                Body {
                    despawn_timer: Some(
                        LimitedTimeOffer { time_remaining: (t.time_remaining - 1) as u32 },
                    ),
                    ..b1
                },
                false,
            )
        },
        None => (b1, false),
    }
}

/// The bookkeeping phase over the first `k` bodies: the aged bodies and
/// the handles scheduled for removal, in body order.
pub open spec fn phase_d_rec(bodies: Seq<Body>, k: nat) -> (Seq<Body>, Seq<Entity>)
    decreases k,
{
    if k == 0 {
        (bodies, Seq::empty())
    } else {
        let prev = phase_d_rec(bodies, (k - 1) as nat);
        let step = body_tick_spec(prev.0[k - 1]);
        (
            prev.0.update(k - 1, step.0),
            if step.1 {
                prev.1.push(prev.0[k - 1].id)
            } else {
                prev.1
            },
        )
    }
}

/// One body through the bookkeeping phase.
fn body_tick(b: Body) -> (r: (Body, bool))
    ensures
        r == body_tick_spec(b),
{
    let mut b1: Body = b;
    match b.age {
        Some(a) => {
            let mut a2 = a;
            a2.step();
            b1.age = Some(a2);
        },
        None => {},
    }
    match b1.despawn_timer {
        Some(t) => {
            if t.time_remaining == 0 {
                (b1, true)
            } else {
                b1.despawn_timer = Some(LimitedTimeOffer { time_remaining: t.time_remaining - 1 });
                (b1, false)
            }
        },
        None => (b1, false),
    }
}

/// One fixed timestep of the whole simulation, in order: stored
/// velocities and friction and touch decay; the collision pass; the
/// player state machine (reading this tick's contacts through the touch
/// memory the pass refreshed, and the spatial snapshot the pass used);
/// aging and despawn timers; and the commit of spawns and despawns. On a
/// configuration fault the tick stops at the player phase and the commit
/// does not run.
#[verifier::rlimit(100)]
#[verifier::loop_isolation(false)]
pub fn tick(
    world: &mut World,
    player: &mut PlayerController,
    player_id: Entity,
    controls: &ControlState,
    dt: i64,
) -> (r: Result<Vec<HitRecord>, ConfigurationError>)
    requires
        old(world).wf(),
        old(world).pending_spawns@.len() == 0,
        old(world).pending_despawns@.len() == 0,
        old(world).next_id < crate::world::ID_LIM,
        old(player).wf(),
        controls.wf(),
        phys::DT_MIN <= dt <= phys::DT_MAX,
    ensures
        ({
            let a = old(world).bodies@.map_values(
                |b: Body| body_phase_a_spec(b, dt as int),
            );
            let cp = collision::collision_pass_spec(a);
            let entries = crate::spatial::snapshot_spec(a);
            let us = player::update_spec(
                *old(player),
                player_id,
                cp.0,
                entries,
                old(world).next_id,
                *controls,
                dt as int,
            );
            &&& *final(player) == us.0
            &&& (match r {
                Ok(hits) => {
                    let d = phase_d_rec(us.1, us.1.len());
                    let spawned: Seq<Body> = match us.2 {
                        Some(anchor) => seq![
                            crate::world::body_of(
                                player::rod_plan_spec(anchor),
                                old(world).next_id,
                            ),
                        ],
                        None => Seq::empty(),
                    };
                    let despawned: Seq<Entity> = (match us.3 {
                        Some(e) => seq![e],
                        None => Seq::empty(),
                    }) + d.1;
                    &&& us.4 is None
                    &&& hits@ == cp.1
                    &&& final(world).bodies@ == crate::world::remove_despawned(
                        d.0 + spawned,
                        despawned,
                    )
                    &&& final(world).pending_spawns@.len() == 0
                    &&& final(world).pending_despawns@.len() == 0
                    &&& final(world).next_id == old(world).next_id + (
                    if us.2 is Some {
                        1int
                    } else {
                        0int
                    })
                },
                Err(e) => {
                    &&& us.4 == Some(e)
                    &&& final(world).bodies@ == us.1
                    &&& final(world).pending_spawns@ == (match us.2 {
                        Some(anchor) => seq![
                            crate::world::body_of(
                                player::rod_plan_spec(anchor),
                                old(world).next_id,
                            ),
                        ],
                        None => Seq::empty(),
                    })
                    &&& final(world).pending_despawns@ == (match us.3 {
                        Some(d) => seq![d],
                        None => Seq::empty(),
                    })
                    &&& final(world).next_id == old(world).next_id + (
                    if us.2 is Some {
                        1int
                    } else {
                        0int
                    })
                },
            })
        }),
        final(player).wf(),
        final(world).arena_ok(),
{
    let ghost bodies0: Seq<Body> = world.bodies@;
    let ghost f = |b: Body| body_phase_a_spec(b, dt as int);
    let n: usize = world.bodies.len();
    let mut i: usize = 0;
    while i < n
        invariant
            i <= n,
            n == world.bodies@.len(),
            world.bodies@.len() == bodies0.len(),
            forall|k: int| 0 <= k < i ==> world.bodies@[k] == f(bodies0[k]),
            forall|k: int| i <= k < n ==> world.bodies@[k] == bodies0[k],
            world.pending_spawns@ == old(world).pending_spawns@,
            world.pending_despawns@ == old(world).pending_despawns@,
            world.next_id == old(world).next_id,
        decreases n - i,
    {
        let b: Body = world.bodies[i];
        proof {
            assert(crate::world::bodies_wf(bodies0));
            assert(b == bodies0[i as int]);
            assert(body_wf(b));
        }
        let b2: Body = body_phase_a(b, dt);
        world.bodies[i] = b2;
        i = i + 1;
    }
    let ghost a: Seq<Body> = bodies0.map_values(f);
    proof {
        assert(world.bodies@ =~= a);
        assert forall|k: int| 0 <= k < a.len() implies {
            &&& (#[trigger] a[k]).id == bodies0[k].id
            &&& a[k].pos == bodies0[k].pos
            &&& a[k].dims == bodies0[k].dims
            &&& match a[k].mover {
                Some(m) => m.remainder.bounded(collision::SWEEP_REM_LIM as int),
                None => true,
            }
        } by {
            lemma_phase_a_props(bodies0[k], dt as int);
        }
        assert(crate::world::ids_distinct(world.bodies@));
        assert(crate::world::placements_ok(world.bodies@));
        assert(collision::movers_ok(world.bodies@));
        assert(collision::pass_ok(world.bodies@));
    }
    let index: SpatialIndex = SpatialIndex::rebuild(world);
    let hits: Vec<HitRecord> = collision::do_collision(world);
    proof {
        assert(world.arena_ok());
    }
    match player.update_from_controls(world, &index, player_id, controls, dt) {
        Err(e) => {
            return Err(e);
        },
        Ok(()) => {},
    }
    let ghost bodies_c: Seq<Body> = world.bodies@;
    let ghost despawns_c: Seq<Entity> = world.pending_despawns@;
    let ghost pend_c: Seq<Body> = world.pending_spawns@;
    let ghost nid_c: Entity = world.next_id;
    let m: usize = world.bodies.len();
    let mut j: usize = 0;
    while j < m
        invariant
            j <= m,
            m == world.bodies@.len(),
            bodies_c.len() == m,
            (world.bodies@, world.pending_despawns@) == {
                let d = phase_d_rec(bodies_c, j as nat);
                (d.0, despawns_c + d.1)
            },
            world.pending_spawns@ == pend_c,
            world.next_id == nid_c,
            world.arena_ok(),
        decreases m - j,
    {
        let ghost pend_before = world.pending_spawns@;
        let ghost bodies_before = world.bodies@;
        let b: Body = world.bodies[j];
        let step: (Body, bool) = body_tick(b);
        world.bodies[j] = step.0;
        if step.1 {
            world.lazy_despawn(b.id);
        }
        proof {
            let d_prev = phase_d_rec(bodies_c, j as nat);
            let d_now = phase_d_rec(bodies_c, j as nat + 1);
            assert(d_now.0 == d_prev.0.update(j as int, body_tick_spec(d_prev.0[j as int]).0));
            assert(world.pending_spawns@ == pend_before);
            if !step.1 {
                assert(despawns_c + d_now.1 == despawns_c + d_prev.1);
            }
            assert(step.0.id == b.id);
            assert(forall|k: int|
                0 <= k < world.bodies@.len() ==> (#[trigger] world.bodies@[k]).id
                    == bodies_before[k].id);
            assert(world.arena_ok());
        }
        j = j + 1;
    }
    world.finalize();
    proof {
        let cp = collision::collision_pass_spec(a);
        let entries = crate::spatial::snapshot_spec(a);
        let us = player::update_spec(
            *old(player),
            player_id,
            cp.0,
            entries,
            old(world).next_id,
            *controls,
            dt as int,
        );
        let spawned: Seq<Body> = match us.2 {
            Some(anchor) => seq![
                crate::world::body_of(player::rod_plan_spec(anchor), old(world).next_id),
            ],
            None => Seq::empty(),
        };
        let despawned0: Seq<Entity> = match us.3 {
            Some(e) => seq![e],
            None => Seq::empty(),
        };
        let d = phase_d_rec(bodies_c, m as nat);
        assert(bodies_c == us.1);
        assert(pend_c =~= spawned);
        assert(despawns_c =~= despawned0);
        assert(despawns_c + d.1 == despawned0 + d.1);
        assert(d.0 + pend_c == d.0 + spawned);
    }
    Ok(hits)
}

/// The bookkeeping phase keeps every body's identity and the body count.
pub proof fn lemma_phase_d_ids(bodies: Seq<Body>, k: nat)
    requires
        k <= bodies.len(),
    ensures
        phase_d_rec(bodies, k).0.len() == bodies.len(),
        forall|i: int|
            0 <= i < bodies.len() ==> (#[trigger] phase_d_rec(bodies, k).0[i]).id == bodies[i].id,
    decreases k,
{
    if k > 0 {
        lemma_phase_d_ids(bodies, (k - 1) as nat);
    }
}

} // verus!
