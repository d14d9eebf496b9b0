//! The player movement state machine: grounded and airborne locomotion
//! with coyote time and jump buffering, and the pendulum rope swing with
//! anchor search, rod deployment and launch.

use vstd::prelude::*;
use crate::controls::ControlState;
use crate::fx;
use crate::fx::SCALE;
use crate::geom::Hitbox;
use crate::phys::IVec2;
use crate::phys::Positioned;
use crate::phys::Velocitized;
use crate::phys;
use crate::spatial::SpatialIndex;
use crate::stats::PlayerStats;
use crate::trig;
use crate::trig::PI_FX;
use crate::vec2::FxVec2;
use crate::world::Body;
use crate::world::Entity;

verus! {

/// Largest magnitude the stored swing angular velocity may take, far above
/// any speed the tuned pendulum can reach; the grab computation caps its
/// result here so the integration arithmetic stays exact.
pub const SWING_VEL_CAP: i64 = 0x0400_0000;

/// Largest magnitude a stored anchor coordinate may take, in fixed-point
/// pixels.
pub const ANCHOR_LIM: i64 = 0x0020_0000_0000;

/// The locomotion sub-state while not swinging.
#[derive(Clone, Copy, Debug, PartialEq, Eq, Structural)]
pub enum NormalState {
    OnGround,
    FallingFromLedge { coyote_countdown: i64 },
    JumpingUp,
    Falling,
}

/// The not-swinging top-level state.
#[derive(Clone, Copy, Debug, PartialEq, Eq, Structural)]
pub struct Normal {
    pub state: NormalState,
    /// Prevents swinging until swing input is released and pressed again.
    pub was_swinging: bool,
}

/// The swinging top-level state: a pendulum around the anchor.
/// An angle of zero hangs straight down; a quarter turn is to the left.
#[derive(Clone, Copy, Debug, PartialEq, Eq, Structural)]
pub struct Swinging {
    pub angle: i64,
    pub vel: i64,
    pub anchor_pos: FxVec2,
    pub swingee: Entity,
}

/// The player's top-level state.
#[derive(Clone, Copy, Debug, PartialEq, Eq, Structural)]
pub enum PlayerState {
    Normal(Normal),
    Swinging(Swinging),
}

/// Moves a value toward a target, by at most `accel` per call while the
/// target is farther from zero than the value (speeding up), and by at
/// most `decel` otherwise (slowing down), never overshooting. A zero
/// `accel` leaves the value alone.
pub open spec fn accelerate_towards_spec(src: int, target: int, accel: int, decel: int) -> int {
    if accel == 0 || src == target {
        src
    } else {
        let delta: int = target - src;
        let step: int = if fx::abs_spec(target) > fx::abs_spec(src) {
            if accel <= fx::abs_spec(delta) {
                accel
            } else {
                fx::abs_spec(delta)
            }
        } else {
            if decel <= fx::abs_spec(delta) {
                decel
            } else {
                fx::abs_spec(delta)
            }
        };
        if delta > 0 {
            src + step
        } else {
            src - step
        }
    }
}

/// Move a velocity toward a target without overshooting.
pub fn accelerate_towards(src: i64, target: i64, accel: i64, decel: i64) -> (r: i64)
    requires
        -phys::VEL_LIM <= src <= phys::VEL_LIM,
        -phys::VEL_LIM <= target <= phys::VEL_LIM,
        0 <= accel,
        0 <= decel,
    ensures
        r == accelerate_towards_spec(src as int, target as int, accel as int, decel as int),
        (if src <= target {
            src <= r <= target
        } else {
            target <= r <= src
        }),
{
    if accel == 0 || src == target {
        return src;
    }
    let delta: i64 = target - src;
    let delta_abs: i64 = if delta >= 0 {
        delta
    } else {
        -delta
    };
    let src_abs: i64 = if src >= 0 {
        src
    } else {
        -src
    };
    let target_abs: i64 = if target >= 0 {
        target
    } else {
        -target
    };
    let step: i64 = if target_abs > src_abs {
        fx::fx_min(accel, delta_abs)
    } else {
        fx::fx_min(decel, delta_abs)
    };
    if delta > 0 {
        src + step
    } else {
        src - step
    }
}

/// One explicit-Euler step of the pendulum: gravity torque (steeper past
/// the too-far angle), the player's pumping, quadratic drag opposing the
/// motion, a terminal angular speed, then the angle advanced by the new
/// velocity. Returns the new `(angle, velocity)`.
pub open spec fn swing_integrate_spec(
    stats: PlayerStats,
    angle0: int,
    vel0: int,
    control_sgn: int,
    dt: int,
) -> (int, int) {
    let angle: int = trig::wrap_spec(angle0);
    let gravity: int = if fx::abs_spec(angle) > stats.swing_too_far_angle {
        stats.swing_too_far_gravity as int
    } else {
        stats.swing_gravity as int
    };
    let pump: int = if control_sgn > 0 {
        stats.player_swing_acc as int
    } else if control_sgn < 0 {
        -(stats.player_swing_acc as int)
    } else {
        0
    };
    let acc: int = -fx::fx_mul_spec(gravity, trig::sin_fx_spec(angle)) - pump;
    let vv: int = fx::fx_mul_spec(vel0, vel0);
    let drag_mag: int = fx::fx_mul_spec(vv, stats.swing_friction as int);
    let drag: int = if vel0 > 0 {
        drag_mag
    } else if vel0 < 0 {
        -drag_mag
    } else {
        0
    };
    let vel1: int = vel0 + fx::fx_mul_spec(acc, dt) - fx::fx_mul_spec(drag, dt);
    let vel2: int = fx::clamp_spec(
        vel1,
        -(stats.swing_terminal_vel as int),
        stats.swing_terminal_vel as int,
    );
    let angle2: int = angle + fx::fx_mul_spec(vel2, dt);
    (angle2, vel2)
}

/// One pendulum integration step.
pub fn swing_integrate(
    stats: &PlayerStats,
    angle: i64,
    vel: i64,
    control_sgn: i64,
    dt: i64,
) -> (r: (i64, i64))
    requires
        stats.wf(),
        -trig::ANGLE_LIM <= angle <= trig::ANGLE_LIM,
        -SWING_VEL_CAP <= vel <= SWING_VEL_CAP,
        -1 <= control_sgn <= 1,
        phys::DT_MIN <= dt <= phys::DT_MAX,
    ensures
        (r.0 as int, r.1 as int) == swing_integrate_spec(
            *stats,
            angle as int,
            vel as int,
            control_sgn as int,
            dt as int,
        ),
        -PI_FX - SCALE <= r.0 <= PI_FX + SCALE,
        -stats.swing_terminal_vel <= r.1 <= stats.swing_terminal_vel,
{
    let a: i64 = trig::wrap_angle(angle);
    let a_abs: i64 = if a >= 0 {
        a
    } else {
        -a
    };
    let gravity: i64 = if a_abs > stats.swing_too_far_angle {
        stats.swing_too_far_gravity
    } else {
        stats.swing_gravity
    };
    let s: i64 = trig::sin_fx(a);
    proof {
        fx::lemma_mul_bound(gravity as int, s as int, crate::stats::SWING_STAT_LIM as int, SCALE as int);
    }
    let gs: i64 = fx::fx_mul(gravity, s);
    let pump: i64 = if control_sgn > 0 {
        stats.player_swing_acc
    } else if control_sgn < 0 {
        -stats.player_swing_acc
    } else {
        0
    };
    let acc: i64 = -gs - pump;
    proof {
        fx::lemma_mul_bound(vel as int, vel as int, SWING_VEL_CAP as int, SWING_VEL_CAP as int);
    }
    let vv: i64 = fx::fx_mul(vel, vel);
    proof {
        fx::lemma_mul_bound(
            vv as int,
            stats.swing_friction as int,
            0x10_0000_0000,
            crate::stats::SWING_STAT_LIM as int,
        );
    }
    let drag_mag: i64 = fx::fx_mul(vv, stats.swing_friction);
    let drag: i64 = if vel > 0 {
        drag_mag
    } else if vel < 0 {
        -drag_mag
    } else {
        0
    };
    proof {
        fx::lemma_mul_bound(acc as int, dt as int, 0x0400_0000, phys::DT_MAX as int);
        fx::lemma_mul_bound(drag as int, dt as int, 0x2000_0000_0000, phys::DT_MAX as int);
    }
    let accdt: i64 = fx::fx_mul(acc, dt);
    let dragdt: i64 = fx::fx_mul(drag, dt);
    let vel1: i64 = vel + accdt - dragdt;
    let vel2: i64 = fx::fx_clamp(vel1, -stats.swing_terminal_vel, stats.swing_terminal_vel);
    proof {
        fx::lemma_mul_bound(vel2 as int, dt as int, crate::stats::SWING_VEL_LIM as int, phys::DT_MAX as int);
    }
    let step: i64 = fx::fx_mul(vel2, dt);
    let angle2: i64 = a + step;
    (angle2, vel2)
}

/// The swing-energy law: hanging at rest straight down is a stable
/// equilibrium of the integration. With no control input, an angle and
/// angular velocity of zero stay exactly zero.
pub proof fn lemma_swing_equilibrium(stats: PlayerStats, dt: int)
    requires
        stats.wf(),
    ensures
        swing_integrate_spec(stats, 0, 0, 0, dt) == (0int, 0int),
{
    trig::lemma_wrap_small(0);
    trig::lemma_sin_zero();
    let gravity: int = if fx::abs_spec(0) > stats.swing_too_far_angle {
        stats.swing_too_far_gravity as int
    } else {
        stats.swing_gravity as int
    };
    fx::lemma_fx_mul_zero(gravity);
    fx::lemma_fx_mul_zero(0);
    fx::lemma_fx_mul_zero(stats.swing_friction as int);
    fx::lemma_fx_mul_zero(dt);
}

/// The swing state after `n` integration steps with no control input.
pub open spec fn swing_iterate_spec(stats: PlayerStats, angle: int, vel: int, dt: int, n: nat) -> (
    int,
    int,
)
    decreases n,
{
    if n == 0 {
        (angle, vel)
    } else {
        let prev = swing_iterate_spec(stats, angle, vel, dt, (n - 1) as nat);
        swing_integrate_spec(stats, prev.0, prev.1, 0, dt)
    }
}

/// The equilibrium holds indefinitely: any number of uncontrolled
/// integration steps from rest straight down stays at rest straight down.
pub proof fn lemma_swing_equilibrium_forever(stats: PlayerStats, dt: int, n: nat)
    requires
        stats.wf(),
    ensures
        swing_iterate_spec(stats, 0, 0, dt, n) == (0int, 0int),
    decreases n,
{
    if n > 0 {
        lemma_swing_equilibrium_forever(stats, dt, (n - 1) as nat);
        lemma_swing_equilibrium(stats, dt);
    }
}


/// Everything one tick of not-swinging locomotion decides, from the
/// grounded flag, the buffered jump and the control vector: the next
/// sub-state, the new velocity, and whether the deployed-rod budget
/// refreshes (landing refreshes it).
///
/// Horizontal velocity moves toward `input * terminal` with the walk or
/// air tunables: zero input brakes with turn-accel/friction, input along
/// the current motion uses normal accel (overspeed decays with the
/// overfast friction), and input against it turns with the turn tunables.
/// Entering `JumpingUp` sets the vertical velocity to exactly the jump
/// impulse, upward; every tick then applies the sub-state's gravity
/// toward the plummet terminal velocity if "down" is held, else toward
/// the fall terminal velocity.
#[verifier::opaque]
pub open spec fn normal_movement_spec(
    stats: PlayerStats,
    n: Normal,
    jump_buffer: int,
    rod_in_air: bool,
    vel: FxVec2,
    grounded: bool,
    controls: ControlState,
    dt: int,
) -> (Normal, (int, int), bool) {
    let rod2: bool = if grounded {
        false
    } else {
        rod_in_air
    };
    let accel: int = if grounded {
        stats.walk_accel as int
    } else {
        stats.air_accel as int
    };
    let friction: int = if grounded {
        stats.walk_friction as int
    } else {
        stats.air_friction as int
    };
    let turn: int = if grounded {
        stats.walk_turn_accel as int
    } else {
        stats.air_turn_accel as int
    };
    let term: int = if grounded {
        stats.walk_terminal_vel as int
    } else {
        stats.air_terminal_vel as int
    };
    let overfast: int = if grounded {
        stats.walk_overfast_friction as int
    } else {
        stats.air_overfast_friction as int
    };
    let target_x: int = fx::fx_mul_spec(controls.movement.x as int, term);
    let acc: int = if controls.movement.x == 0 {
        turn
    } else if vel.x == 0 || fx::sgn_spec(controls.movement.x as int) == fx::sgn_spec(vel.x as int) {
        accel
    } else {
        turn
    };
    let dec: int = if controls.movement.x == 0 {
        friction
    } else if vel.x == 0 || fx::sgn_spec(controls.movement.x as int) == fx::sgn_spec(vel.x as int) {
        overfast
    } else {
        friction
    };
    let vx: int = accelerate_towards_spec(
        vel.x as int,
        target_x,
        fx::fx_mul_spec(acc, dt),
        fx::fx_mul_spec(dec, dt),
    );
    let state2: Option<NormalState> = match n.state {
        NormalState::OnGround => if !grounded {
            Some(NormalState::FallingFromLedge { coyote_countdown: stats.coyote_time })
        } else if jump_buffer > 0 {
            Some(NormalState::JumpingUp)
        } else {
            None
        },
        NormalState::FallingFromLedge { coyote_countdown } => if grounded {
            Some(NormalState::OnGround)
        } else if coyote_countdown > 0 && jump_buffer > 0 {
            Some(NormalState::JumpingUp)
        } else {
            Some(
                NormalState::FallingFromLedge {
                    coyote_countdown: if coyote_countdown - dt >= 0 {
                        (coyote_countdown - dt) as i64
                    } else {
                        0
                    },
                },
            )
        },
        NormalState::JumpingUp => if controls.jump && vel.y < 0 {
            None
        } else {
            Some(NormalState::Falling)
        },
        NormalState::Falling => if grounded {
            Some(NormalState::OnGround)
        } else {
            None
        },
    };
    let vy0: int = if state2 == Some(NormalState::JumpingUp) {
        -(stats.jump_impulse_vel as int)
    } else {
        vel.y as int
    };
    let nstate: NormalState = match state2 {
        Some(s2) => s2,
        None => n.state,
    };
    let gravity: int = match nstate {
        NormalState::OnGround => stats.falling_gravity as int,
        NormalState::FallingFromLedge { coyote_countdown } => if coyote_countdown > 0 {
            stats.coyote_gravity as int
        } else {
            stats.falling_gravity as int
        },
        NormalState::JumpingUp => if controls.jump {
            stats.jump_gravity as int
        } else {
            stats.jump_release_gravity as int
        },
        NormalState::Falling => stats.falling_gravity as int,
    };
    let term_y: int = if controls.movement.y > 0 {
        stats.plummet_terminal_vel as int
    } else {
        stats.fall_terminal_vel as int
    };
    let dec_y: int = if controls.movement.y > 0 {
        stats.plummet_friction_y as int
    } else {
        stats.fall_friction_y as int
    };
    let vy: int = accelerate_towards_spec(
        vy0,
        term_y,
        fx::fx_mul_spec(gravity, dt),
        fx::fx_mul_spec(dec_y, dt),
    );
    (Normal { state: nstate, was_swinging: n.was_swinging }, (vx, vy), rod2)
}

/// A coyote countdown within the stat bound.
pub open spec fn normal_wf(n: Normal) -> bool {
    match n.state {
        NormalState::FallingFromLedge { coyote_countdown } => 0 <= coyote_countdown
            <= crate::stats::STAT_LIM,
        _ => true,
    }
}

/// One tick of not-swinging locomotion.
pub fn normal_movement(
    stats: &PlayerStats,
    n: Normal,
    jump_buffer: i64,
    rod_in_air: bool,
    vel: FxVec2,
    grounded: bool,
    controls: &ControlState,
    dt: i64,
) -> (r: (Normal, FxVec2, bool))
    requires
        stats.wf(),
        normal_wf(n),
        vel.bounded(phys::VEL_LIM as int),
        controls.wf(),
        phys::DT_MIN <= dt <= phys::DT_MAX,
    ensures
        ({
            let spec_r = normal_movement_spec(
                *stats,
                n,
                jump_buffer as int,
                rod_in_air,
                vel,
                grounded,
                *controls,
                dt as int,
            );
            &&& r.0 == spec_r.0
            &&& r.1.x == spec_r.1.0
            &&& r.1.y == spec_r.1.1
            &&& r.2 == spec_r.2
        }),
        normal_wf(r.0),
        r.1.bounded(phys::VEL_LIM as int),
{
    proof {
        reveal(normal_movement_spec);
    }
    let rod2: bool = if grounded {
        false
    } else {
        rod_in_air
    };
    let accel: i64 = if grounded {
        stats.walk_accel
    } else {
        stats.air_accel
    };
    let friction: i64 = if grounded {
        stats.walk_friction
    } else {
        stats.air_friction
    };
    let turn: i64 = if grounded {
        stats.walk_turn_accel
    } else {
        stats.air_turn_accel
    };
    let term: i64 = if grounded {
        stats.walk_terminal_vel
    } else {
        stats.air_terminal_vel
    };
    let overfast: i64 = if grounded {
        stats.walk_overfast_friction
    } else {
        stats.air_overfast_friction
    };
    proof {
        fx::lemma_mul_bound(
            controls.movement.x as int,
            term as int,
            2 * SCALE as int,
            crate::stats::STAT_LIM as int,
        );
    }
    let target_x: i64 = fx::fx_mul(controls.movement.x, term);
    let mx_sgn: i64 = fx::sgn(controls.movement.x);
    let vx_sgn: i64 = fx::sgn(vel.x);
    let acc: i64 = if controls.movement.x == 0 {
        turn
    } else if vel.x == 0 || mx_sgn == vx_sgn {
        accel
    } else {
        turn
    };
    let dec: i64 = if controls.movement.x == 0 {
        friction
    } else if vel.x == 0 || mx_sgn == vx_sgn {
        overfast
    } else {
        friction
    };
    proof {
        fx::lemma_mul_bound(acc as int, dt as int, crate::stats::STAT_LIM as int, phys::DT_MAX as int);
        fx::lemma_mul_bound(dec as int, dt as int, crate::stats::STAT_LIM as int, phys::DT_MAX as int);
        fx::lemma_trunc_div_bound((acc as int) * (dt as int), SCALE as int);
        fx::lemma_trunc_div_bound((dec as int) * (dt as int), SCALE as int);
    }
    let acc_dt: i64 = fx::fx_mul(acc, dt);
    let dec_dt: i64 = fx::fx_mul(dec, dt);
    let vx: i64 = accelerate_towards(vel.x, target_x, acc_dt, dec_dt);
    let state2: Option<NormalState> = match n.state {
        NormalState::OnGround => {
            if !grounded {
                Some(NormalState::FallingFromLedge { coyote_countdown: stats.coyote_time })
            } else if jump_buffer > 0 {
                Some(NormalState::JumpingUp)
            } else {
                None
            }
        },
        NormalState::FallingFromLedge { coyote_countdown } => {
            if grounded {
                Some(NormalState::OnGround)
            } else if coyote_countdown > 0 && jump_buffer > 0 {
                Some(NormalState::JumpingUp)
            } else {
                Some(
                    NormalState::FallingFromLedge {
                        coyote_countdown: if coyote_countdown - dt >= 0 {
                            coyote_countdown - dt
                        } else {
                            0
                        },
                    },
                )
            }
        },
        NormalState::JumpingUp => {
            if controls.jump && vel.y < 0 {
                None
            } else {
                Some(NormalState::Falling)
            }
        },
        NormalState::Falling => {
            if grounded {
                Some(NormalState::OnGround)
            } else {
                None
            }
        },
    };
    let is_takeoff: bool = match state2 {
        Some(NormalState::JumpingUp) => true,
        _ => false,
    };
    let vy0: i64 = if is_takeoff {
        -stats.jump_impulse_vel
    } else {
        vel.y
    };
    let nstate: NormalState = match state2 {
        Some(s2) => s2,
        None => n.state,
    };
    let gravity: i64 = match nstate {
        NormalState::OnGround => stats.falling_gravity,
        NormalState::FallingFromLedge { coyote_countdown } => {
            if coyote_countdown > 0 {
                stats.coyote_gravity
            } else {
                stats.falling_gravity
            }
        },
        NormalState::JumpingUp => {
            if controls.jump {
                stats.jump_gravity
            } else {
                stats.jump_release_gravity
            }
        },
        NormalState::Falling => stats.falling_gravity,
    };
    let term_y: i64 = if controls.movement.y > 0 {
        stats.plummet_terminal_vel
    } else {
        stats.fall_terminal_vel
    };
    let dec_y: i64 = if controls.movement.y > 0 {
        stats.plummet_friction_y
    } else {
        stats.fall_friction_y
    };
    proof {
        fx::lemma_mul_bound(
            gravity as int,
            dt as int,
            crate::stats::STAT_LIM as int,
            phys::DT_MAX as int,
        );
        fx::lemma_mul_bound(dec_y as int, dt as int, crate::stats::STAT_LIM as int, phys::DT_MAX as int);
        fx::lemma_trunc_div_bound((gravity as int) * (dt as int), SCALE as int);
        fx::lemma_trunc_div_bound((dec_y as int) * (dt as int), SCALE as int);
    }
    let grav_dt: i64 = fx::fx_mul(gravity, dt);
    let dec_y_dt: i64 = fx::fx_mul(dec_y, dt);
    let vy: i64 = accelerate_towards(vy0, term_y, grav_dt, dec_y_dt);
    (Normal { state: nstate, was_swinging: n.was_swinging }, FxVec2 { x: vx, y: vy }, rod2)
}

/// The jump-takeoff law: standing on the ground with a buffered jump
/// always enters `JumpingUp`, and the vertical velocity is set to exactly
/// the upward jump impulse before that tick's gravity applies.
pub proof fn lemma_jump_takeoff(
    stats: PlayerStats,
    n: Normal,
    jump_buffer: int,
    rod_in_air: bool,
    vel: FxVec2,
    controls: ControlState,
    dt: int,
)
    requires
        n.state == NormalState::OnGround,
        jump_buffer > 0,
    ensures
        ({
            let r = normal_movement_spec(stats, n, jump_buffer, rod_in_air, vel, true, controls, dt);
            let gravity: int = if controls.jump {
                stats.jump_gravity as int
            } else {
                stats.jump_release_gravity as int
            };
            let term_y: int = if controls.movement.y > 0 {
                stats.plummet_terminal_vel as int
            } else {
                stats.fall_terminal_vel as int
            };
            let dec_y: int = if controls.movement.y > 0 {
                stats.plummet_friction_y as int
            } else {
                stats.fall_friction_y as int
            };
            &&& r.0.state == NormalState::JumpingUp
            &&& r.1.1 == accelerate_towards_spec(
                -(stats.jump_impulse_vel as int),
                term_y,
                fx::fx_mul_spec(gravity, dt),
                fx::fx_mul_spec(dec_y, dt),
            )
        }),
{
    reveal(normal_movement_spec);
}


/// Below this squared length (in raw doubly-scaled units, about `1e-4`
/// of a unit), the movement vector counts as no aim and the default aim
/// (straight up) is used.
pub const AIM_DEADZONE_SQ: i64 = 429497;

/// The single authoritative state holder for the controlled body.
#[derive(Clone, Copy, Debug, PartialEq, Eq, Structural)]
pub struct PlayerController {
    pub was_pressing_jump: bool,
    pub jump_buffer_countdown: i64,
    /// Set when deploying the rod mid-air, cleared on landing; while set,
    /// no further rod can be deployed.
    pub deployed_rod_in_air: bool,
    /// The handle of our own deployed rod, while one exists.
    pub deployed_rod_entity: Option<Entity>,
    pub state: PlayerState,
    pub stats: PlayerStats,
}

/// A swing state whose numbers are inside the integration's bounds.
pub open spec fn swinging_wf(sw: Swinging) -> bool {
    &&& -PI_FX - SCALE <= sw.angle <= PI_FX + SCALE
    &&& -SWING_VEL_CAP <= sw.vel <= SWING_VEL_CAP
    &&& sw.anchor_pos.bounded(ANCHOR_LIM as int)
}

impl PlayerController {
    /// Stats, buffered countdowns and the state's numbers all in bounds.
    pub open spec fn wf(self) -> bool {
        &&& self.stats.wf()
        &&& 0 <= self.jump_buffer_countdown <= crate::stats::STAT_LIM
        &&& match self.state {
            PlayerState::Normal(n) => normal_wf(n),
            PlayerState::Swinging(sw) => swinging_wf(sw),
        }
    }

    /// A fresh controller: on the ground, nothing buffered, no rod out,
    /// stock tuning.
    pub fn new() -> (r: PlayerController)
        ensures
            r.wf(),
            !r.was_pressing_jump,
            r.jump_buffer_countdown == 0,
            !r.deployed_rod_in_air,
            r.deployed_rod_entity is None,
            r.state == PlayerState::Normal(
                Normal { state: NormalState::OnGround, was_swinging: false },
            ),
            r.stats == crate::stats::default_player_stats(),
    {
        PlayerController {
            was_pressing_jump: false,
            jump_buffer_countdown: 0,
            deployed_rod_in_air: false,
            deployed_rod_entity: None,
            state: PlayerState::Normal(Normal { state: NormalState::OnGround, was_swinging: false }),
            stats: PlayerStats::default(),
        }
    }
}

/// The probe box for step `i` of the anchor search: the first box sits one
/// aim-unit from the player at the starting size; later boxes step outward
/// along the aim and grow by the radius increment.
pub open spec fn probe_box_spec(pos: IVec2, aim: FxVec2, stats: PlayerStats, i: int) -> Hitbox {
    if i == 0 {
        Hitbox::new_spec(
            fx::fx_round_spec(pos.x * (SCALE as int) + aim.x),
            fx::fx_round_spec(pos.y * (SCALE as int) + aim.y),
            2 * stats.grab_extant_start_size,
            2 * stats.grab_extant_start_size,
        )
    } else {
        let k: int = (stats.grab_extant_step_size as int) * i;
        let radius: int = stats.grab_extant_swingable_radius + i
            * stats.grab_extant_swingable_radius_increment;
        Hitbox::new_spec(
            fx::fx_round_spec(pos.x * (SCALE as int) + fx::fx_mul_spec(aim.x as int, k)),
            fx::fx_round_spec(pos.y * (SCALE as int) + fx::fx_mul_spec(aim.y as int, k)),
            2 * radius,
            2 * radius,
        )
    }
}

/// The growing sequence of boxes probed for an existing anchor, nearest
/// first.
pub fn grab_extant_rod_hbs(player_pos: IVec2, anchor_delta: FxVec2, stats: &PlayerStats) -> (r:
    Vec<Hitbox>)
    requires
        stats.wf(),
        -phys::POS_LIM <= player_pos.x <= phys::POS_LIM,
        -phys::POS_LIM <= player_pos.y <= phys::POS_LIM,
        anchor_delta.bounded(2 * SCALE as int),
    ensures
        r@.len() == if stats.grab_extant_step_count == 0 {
            1int
        } else {
            stats.grab_extant_step_count as int
        },
        forall|i: int|
            0 <= i < r@.len() ==> r@[i] == probe_box_spec(player_pos, anchor_delta, *stats, i),
{
    let mut r: Vec<Hitbox> = Vec::new();
    let px: i64 = fx::fx_of_px(player_pos.x);
    let py: i64 = fx::fx_of_px(player_pos.y);
    let sx: i64 = fx::fx_round(px + anchor_delta.x);
    let sy: i64 = fx::fx_round(py + anchor_delta.y);
    let start_hb: Hitbox = Hitbox::new(
        sx as i32,
        sy as i32,
        2 * stats.grab_extant_start_size,
        2 * stats.grab_extant_start_size,
    );
    r.push(start_hb);
    let count: usize = stats.grab_extant_step_count;
    let mut i: usize = 1;
    while i < count
        invariant
            1 <= i,
            i <= count || (count == 0 && i == 1),
            count == stats.grab_extant_step_count,
            stats.wf(),
            -phys::POS_LIM <= player_pos.x <= phys::POS_LIM,
            -phys::POS_LIM <= player_pos.y <= phys::POS_LIM,
            anchor_delta.bounded(2 * SCALE as int),
            px == player_pos.x * (SCALE as int),
            py == player_pos.y * (SCALE as int),
            r@.len() == i,
            forall|j: int|
                0 <= j < i ==> r@[j] == probe_box_spec(player_pos, anchor_delta, *stats, j),
        decreases count - i,
    {
        proof {
            fx::lemma_mul_bound(
                stats.grab_extant_step_size as int,
                i as int,
                crate::stats::SWING_STAT_LIM as int,
                64,
            );
        }
        let k: i64 = stats.grab_extant_step_size * (i as i64);
        proof {
            fx::lemma_mul_bound(
                anchor_delta.x as int,
                k as int,
                2 * SCALE as int,
                crate::stats::SWING_STAT_LIM as int * 64,
            );
            fx::lemma_mul_bound(
                anchor_delta.y as int,
                k as int,
                2 * SCALE as int,
                crate::stats::SWING_STAT_LIM as int * 64,
            );
            fx::lemma_trunc_div_bound((anchor_delta.x as int) * (k as int), SCALE as int);
            fx::lemma_trunc_div_bound((anchor_delta.y as int) * (k as int), SCALE as int);
        }
        let ox: i64 = fx::fx_mul(anchor_delta.x, k);
        let oy: i64 = fx::fx_mul(anchor_delta.y, k);
        let cx: i64 = fx::fx_round(px + ox);
        let cy: i64 = fx::fx_round(py + oy);
        proof {
            fx::lemma_mul_bound(
                i as int,
                stats.grab_extant_swingable_radius_increment as int,
                64,
                crate::stats::GRAB_RADIUS_LIM as int,
            );
        }
        let radius: i32 = stats.grab_extant_swingable_radius + (i as i32)
            * stats.grab_extant_swingable_radius_increment;
        let hb: Hitbox = Hitbox::new(cx as i32, cy as i32, 2 * radius, 2 * radius);
        r.push(hb);
        i = i + 1;
    }
    r
}

/// Whether some live body carries the handle and the swingable marker.
pub open spec fn swingable_spec(bodies: Seq<Body>, e: Entity) -> bool {
    exists|i: int| 0 <= i < bodies.len() && (#[trigger] bodies[i]).id == e && bodies[i].swingable
}

/// Whether the body named by the handle is live and swingable.
fn is_swingable(world: &crate::world::World, e: Entity) -> (r: bool)
    requires
        crate::world::ids_distinct(world.bodies@),
    ensures
        r == swingable_spec(world.bodies@, e),
{
    match world.find_index(e) {
        Some(i) => {
            let s: bool = world.bodies[i].swingable;
            proof {
                if s {
                    assert(world.bodies@[i as int].id == e && world.bodies@[i as int].swingable);
                } else {
                    assert(forall|k: int|
                        0 <= k < world.bodies@.len() && (#[trigger] world.bodies@[k]).id == e ==> k
                            == i);
                }
            }
            s
        },
        None => false,
    }
}

/// The first handle in the list that names a live swingable body.
pub open spec fn first_swingable(bodies: Seq<Body>, ids: Seq<Entity>) -> Option<Entity>
    decreases ids.len(),
{
    if ids.len() == 0 {
        None
    } else if swingable_spec(bodies, ids[0]) {
        Some(ids[0])
    } else {
        first_swingable(bodies, ids.subrange(1, ids.len() as int))
    }
}

/// Scan a query result for the first swingable body.
fn find_first_swingable(world: &crate::world::World, ids: &Vec<Entity>) -> (r: Option<Entity>)
    requires
        crate::world::ids_distinct(world.bodies@),
    ensures
        r == first_swingable(world.bodies@, ids@),
{
    let ghost s: Seq<Entity> = ids@;
    let n: usize = ids.len();
    let mut i: usize = 0;
    proof {
        assert(s.subrange(0, n as int) == s);
    }
    while i < n
        invariant
            i <= n,
            n == s.len(),
            s == ids@,
            crate::world::ids_distinct(world.bodies@),
            first_swingable(world.bodies@, s) == first_swingable(
                world.bodies@,
                s.subrange(i as int, n as int),
            ),
        decreases n - i,
    {
        proof {
            let tail = s.subrange(i as int, n as int);
            assert(tail[0] == s[i as int]);
            assert(tail.subrange(1, tail.len() as int) == s.subrange(i as int + 1, n as int));
        }
        if is_swingable(world, ids[i]) {
            return Some(ids[i]);
        }
        i = i + 1;
    }
    proof {
        assert(s.subrange(n as int, n as int).len() == 0);
    }
    None
}

/// The anchor the search settles on, probing boxes from step `i` outward:
/// the first swingable body found in the nearest nonempty probe.
pub open spec fn anchor_search_from(
    bodies: Seq<Body>,
    entries: Seq<crate::spatial::EntityAABB>,
    pos: IVec2,
    aim: FxVec2,
    stats: PlayerStats,
    i: int,
) -> Option<Entity>
    decreases (
    if stats.grab_extant_step_count == 0 {
        1int
    } else {
        stats.grab_extant_step_count as int
    }) - i
        when 0 <= i
{
    let total: int = if stats.grab_extant_step_count == 0 {
        1int
    } else {
        stats.grab_extant_step_count as int
    };
    if i < 0 || i >= total {
        None
    } else {
        match first_swingable(
            bodies,
            crate::spatial::query_spec(entries, probe_box_spec(pos, aim, stats, i)),
        ) {
            Some(e) => Some(e),
            None => anchor_search_from(bodies, entries, pos, aim, stats, i + 1),
        }
    }
}

/// Search the probe boxes, nearest first, for an existing swingable
/// anchor.
fn search_anchor(
    world: &crate::world::World,
    index: &SpatialIndex,
    pos: IVec2,
    aim: FxVec2,
    stats: &PlayerStats,
) -> (r: Option<Entity>)
    requires
        crate::world::ids_distinct(world.bodies@),
        stats.wf(),
        -phys::POS_LIM <= pos.x <= phys::POS_LIM,
        -phys::POS_LIM <= pos.y <= phys::POS_LIM,
        aim.bounded(2 * SCALE as int),
    ensures
        r == anchor_search_from(world.bodies@, index.entries@, pos, aim, *stats, 0),
{
    let boxes: Vec<Hitbox> = grab_extant_rod_hbs(pos, aim, stats);
    let n: usize = boxes.len();
    let mut i: usize = 0;
    while i < n
        invariant
            i <= n,
            n == boxes@.len(),
            crate::world::ids_distinct(world.bodies@),
            stats.wf(),
            n == if stats.grab_extant_step_count == 0 {
                1int
            } else {
                stats.grab_extant_step_count as int
            },
            forall|j: int| 0 <= j < n ==> boxes@[j] == probe_box_spec(pos, aim, *stats, j),
            anchor_search_from(world.bodies@, index.entries@, pos, aim, *stats, 0)
                == anchor_search_from(world.bodies@, index.entries@, pos, aim, *stats, i as int),
        decreases n - i,
    {
        let ids: Vec<Entity> = index.get_entities_in_box(boxes[i]);
        let found: Option<Entity> = find_first_swingable(world, &ids);
        match found {
            Some(e) => {
                return Some(e);
            },
            None => {},
        }
        i = i + 1;
    }
    None
}


/// The release angle after the launch cheat: angles past the threshold
/// shrink toward it by the cheat factor, making near-horizontal releases
/// easier to control.
pub open spec fn cheat_angle_spec(stats: PlayerStats, angle: int) -> int {
    let t: int = stats.angle_to_cheat_launch_vel_at as int;
    if fx::abs_spec(angle) > t {
        let reduced: int = fx::fx_div_spec(
            fx::abs_spec(angle) - t,
            stats.angle_launch_vel_cheat_factor as int,
        );
        if angle >= 0 {
            t + reduced
        } else {
            -(t + reduced)
        }
    } else {
        angle
    }
}

/// Cheated release angles stay strictly within half a turn, so their sine
/// and cosine are defined.
pub proof fn lemma_cheat_bound(stats: PlayerStats, angle: int)
    requires
        stats.wf(),
        -PI_FX - SCALE <= angle <= PI_FX + SCALE,
    ensures
        -PI_FX <= cheat_angle_spec(stats, angle) <= PI_FX,
{
    let t: int = stats.angle_to_cheat_launch_vel_at as int;
    let f: int = stats.angle_launch_vel_cheat_factor as int;
    let a: int = fx::abs_spec(angle);
    if a > t {
        let x: int = a - t;
        assert(x * (SCALE as int) <= (PI_FX - t - 1) * f) by (nonlinear_arith)
            requires
                x <= PI_FX + SCALE - t,
                f >= 2 * SCALE,
                0 <= t <= trig::HALF_PI_FX,
                SCALE == 65536,
                PI_FX == 205887,
                trig::HALF_PI_FX == 102943,
                x == a - t,
                a > t,
        ;
        fx::lemma_div_shrinks(x * (SCALE as int), f);
        assert((x * (SCALE as int)) / f <= PI_FX - t - 1) by {
            lemma_div_at_most_player(x * (SCALE as int), f, PI_FX - t - 1);
        }
    }
}

/// For a nonnegative dividend, the quotient is at most any `m` with
/// `dividend <= m * divisor`.
proof fn lemma_div_at_most_player(a: int, b: int, m: int)
    requires
        a >= 0,
        b >= 1,
        m >= 0,
        a <= m * b,
    ensures
        a / b <= m,
{
    assert(a / b <= m) by (nonlinear_arith)
        requires
            a >= 0,
            b >= 1,
            m >= 0,
            a <= m * b,
    ;
}

/// Apply the launch cheat to a release angle.
pub fn cheat_angle(stats: &PlayerStats, angle: i64) -> (r: i64)
    requires
        stats.wf(),
        -PI_FX - SCALE <= angle <= PI_FX + SCALE,
    ensures
        r == cheat_angle_spec(*stats, angle as int),
        -PI_FX <= r <= PI_FX,
{
    proof {
        lemma_cheat_bound(*stats, angle as int);
    }
    let t: i64 = stats.angle_to_cheat_launch_vel_at;
    let a: i64 = if angle >= 0 {
        angle
    } else {
        -angle
    };
    if a > t {
        proof {
            fx::lemma_mul_bound(a - t, SCALE as int, PI_FX + SCALE as int, SCALE as int);
            fx::lemma_trunc_div_bound(
                (a - t) * (SCALE as int),
                stats.angle_launch_vel_cheat_factor as int,
            );
        }
        let reduced: i64 = fx::fx_div(a - t, stats.angle_launch_vel_cheat_factor);
        if angle >= 0 {
            t + reduced
        } else {
            -(t + reduced)
        }
    } else {
        angle
    }
}

/// What grabbing an anchor computes: the initial pendulum angle (the
/// signed angle between straight down and the anchor direction) and the
/// initial angular velocity (the signed rejection of the current velocity
/// from the anchor direction, scaled by the grab rate, snapped up to the
/// cheat maximum when it lands in the dead zone).
pub open spec fn swing_grab_spec(stats: PlayerStats, vel: FxVec2, pos: IVec2, anchor: FxVec2) -> (
    int,
    int,
) {
    let dx: int = fx::clamp_spec(
        anchor.x - pos.x * (SCALE as int),
        -crate::vec2::VEC_LIM as int,
        crate::vec2::VEC_LIM as int,
    );
    let dy: int = fx::clamp_spec(
        anchor.y - pos.y * (SCALE as int),
        -crate::vec2::VEC_LIM as int,
        crate::vec2::VEC_LIM as int,
    );
    let dir = (FxVec2 { x: dx as i64, y: dy as i64 }).normalize_spec();
    let perp: int = fx::fx_mul_spec(vel.x as int, dir.1) - fx::fx_mul_spec(vel.y as int, dir.0);
    let perp_c: int = fx::clamp_spec(
        perp,
        -crate::vec2::VEC_LIM as int,
        crate::vec2::VEC_LIM as int,
    );
    let raw: int = fx::fx_mul_spec(perp_c, stats.vel_to_swing_vel_rate as int);
    let capped: int = fx::clamp_spec(raw, -SWING_VEL_CAP as int, SWING_VEL_CAP as int);
    let snapped: int = if stats.start_grab_speed_cheat_min <= fx::abs_spec(capped)
        && fx::abs_spec(capped) <= stats.start_grab_speed_cheat_max {
        if capped >= 0 {
            stats.start_grab_speed_cheat_max as int
        } else {
            -(stats.start_grab_speed_cheat_max as int)
        }
    } else {
        capped
    };
    let angle: int = trig::atan2_spec(dir.0, -dir.1);
    (angle, snapped)
}

/// Compute the initial pendulum state for a fresh grab.
pub fn swing_grab(stats: &PlayerStats, vel: FxVec2, pos: IVec2, anchor: FxVec2) -> (r: (i64, i64))
    requires
        stats.wf(),
        vel.bounded(phys::VEL_LIM as int),
        -phys::POS_LIM <= pos.x <= phys::POS_LIM,
        -phys::POS_LIM <= pos.y <= phys::POS_LIM,
        anchor.bounded(ANCHOR_LIM as int),
    ensures
        (r.0 as int, r.1 as int) == swing_grab_spec(*stats, vel, pos, anchor),
        -PI_FX <= r.0 <= PI_FX,
        -SWING_VEL_CAP <= r.1 <= SWING_VEL_CAP,
{
    let px: i64 = fx::fx_of_px(pos.x);
    let py: i64 = fx::fx_of_px(pos.y);
    let dx: i64 = fx::fx_clamp(anchor.x - px, -crate::vec2::VEC_LIM, crate::vec2::VEC_LIM);
    let dy: i64 = fx::fx_clamp(anchor.y - py, -crate::vec2::VEC_LIM, crate::vec2::VEC_LIM);
    let dir: FxVec2 = (FxVec2 { x: dx, y: dy }).normalize_or_zero();
    proof {
        fx::lemma_mul_bound(vel.x as int, dir.y as int, phys::VEL_LIM as int, 2 * SCALE as int);
        fx::lemma_mul_bound(vel.y as int, dir.x as int, phys::VEL_LIM as int, 2 * SCALE as int);
        fx::lemma_trunc_div_bound((vel.x as int) * (dir.y as int), SCALE as int);
        fx::lemma_trunc_div_bound((vel.y as int) * (dir.x as int), SCALE as int);
    }
    let perp: i64 = fx::fx_mul(vel.x, dir.y) - fx::fx_mul(vel.y, dir.x);
    let perp_c: i64 = fx::fx_clamp(perp, -crate::vec2::VEC_LIM, crate::vec2::VEC_LIM);
    proof {
        fx::lemma_mul_bound(
            perp_c as int,
            stats.vel_to_swing_vel_rate as int,
            crate::vec2::VEC_LIM as int,
            crate::stats::SWING_STAT_LIM as int,
        );
    }
    let raw: i64 = fx::fx_mul(perp_c, stats.vel_to_swing_vel_rate);
    let capped: i64 = fx::fx_clamp(raw, -SWING_VEL_CAP, SWING_VEL_CAP);
    let capped_abs: i64 = if capped >= 0 {
        capped
    } else {
        -capped
    };
    let snapped: i64 = if stats.start_grab_speed_cheat_min <= capped_abs && capped_abs
        <= stats.start_grab_speed_cheat_max {
        if capped >= 0 {
            stats.start_grab_speed_cheat_max
        } else {
            -stats.start_grab_speed_cheat_max
        }
    } else {
        capped
    };
    let angle: i64 = trig::atan2_fx(dir.x, -dir.y);
    (angle, snapped)
}

/// The body plan of a freshly deployed rod: a swingable anchor placed at
/// the aimed point (clamped into the world bounds), carrying nothing
/// else.
pub open spec fn rod_plan_spec(anchor: FxVec2) -> crate::world::BodyPlan {
    crate::world::BodyPlan {
        pos: Some(
            Positioned {
                pos: IVec2 {
                    x: fx::clamp_spec(
                        fx::fx_round_spec(anchor.x as int),
                        -phys::POS_LIM as int,
                        phys::POS_LIM as int,
                    ) as i32,
                    y: fx::clamp_spec(
                        fx::fx_round_spec(anchor.y as int),
                        -phys::POS_LIM as int,
                        phys::POS_LIM as int,
                    ) as i32,
                },
            },
        ),
        dims: None,
        mover: None,
        vel: None,
        kinematic: None,
        friction: None,
        age: None,
        despawn_timer: None,
        collider: false,
        swingable: true,
        bonker: false,
    }
}

/// What a swing attempt decides. Swinging can start only from a
/// not-swinging, not-grounded state, on a fresh press of the swing input.
/// The aim comes from the movement vector (straight up when it is in the
/// dead zone); a swingable body found by the probe boxes is preferred,
/// nearest first; otherwise, if the rod budget allows, a temporary rod is
/// deployed one rod-length along the aim. Returns the controller after
/// the attempt, the anchor point of a newly deployed rod if one was
/// deployed, and the configuration fault if a required component was
/// missing or out of bounds.
#[verifier::opaque]
pub open spec fn check_start_spec(
    ctrl: PlayerController,
    me: Entity,
    bodies: Seq<Body>,
    entries: Seq<crate::spatial::EntityAABB>,
    next_id: Entity,
    controls: ControlState,
) -> (PlayerController, Option<FxVec2>, Option<crate::world::ConfigurationError>) {
    match ctrl.state {
        PlayerState::Swinging(_) => (ctrl, None, None),
        PlayerState::Normal(n) => {
            if !controls.swing {
                (
                    PlayerController {
                        state: PlayerState::Normal(Normal { state: n.state, was_swinging: false }),
                        ..ctrl
                    },
                    None,
                    None,
                )
            } else {
                let state_ok: bool = !(n.state == NormalState::OnGround);
                if n.was_swinging || !state_ok {
                    (ctrl, None, None)
                } else if !crate::world::body_with_id(bodies, me) {
                    (ctrl, None, Some(crate::world::ConfigurationError::MissingComponent))
                } else {
                    let b = bodies[crate::collision::body_index(bodies, me)];
                    match (b.pos, b.vel) {
                        (Some(p), Some(v)) => {
                            if !p.wf() || !v.vel.bounded(phys::VEL_LIM as int) {
                                (ctrl, None, Some(crate::world::ConfigurationError::OutOfRange))
                            } else {
                                let aim: (int, int) = if controls.movement.len_sq_spec()
                                    < AIM_DEADZONE_SQ {
                                    (0int, -(SCALE as int))
                                } else {
                                    controls.movement.normalize_spec()
                                };
                                let aim_v = FxVec2 { x: aim.0 as i64, y: aim.1 as i64 };
                                let found: Option<Entity> = anchor_search_from(
                                    bodies,
                                    entries,
                                    p.pos,
                                    aim_v,
                                    ctrl.stats,
                                    0,
                                );
                                match found {
                                    Some(it) => {
                                        if !crate::world::body_with_id(bodies, it) {
                                            (
                                                ctrl,
                                                None,
                                                Some(
                                                    crate::world::ConfigurationError::MissingComponent,
                                                ),
                                            )
                                        } else {
                                            let bit = bodies[crate::collision::body_index(
                                                bodies,
                                                it,
                                            )];
                                            match bit.pos {
                                                Some(pit) => {
                                                    if !pit.wf() {
                                                        (
                                                            ctrl,
                                                            None,
                                                            Some(
                                                                crate::world::ConfigurationError::OutOfRange,
                                                            ),
                                                        )
                                                    } else {
                                                        let anchor = FxVec2 {
                                                            x: (pit.pos.x * (SCALE as int)) as i64,
                                                            y: (pit.pos.y * (SCALE as int)) as i64,
                                                        };
                                                        let grab = swing_grab_spec(
                                                            ctrl.stats,
                                                            v.vel,
                                                            p.pos,
                                                            anchor,
                                                        );
                                                        (
                                                            PlayerController {
                                                                state: PlayerState::Swinging(
                                                                    Swinging {
                                                                        angle: grab.0 as i64,
                                                                        vel: grab.1 as i64,
                                                                        anchor_pos: anchor,
                                                                        swingee: it,
                                                                    },
                                                                ),
                                                                ..ctrl
                                                            },
                                                            None,
                                                            None,
                                                        )
                                                    }
                                                },
                                                None => (
                                                    ctrl,
                                                    None,
                                                    Some(
                                                        crate::world::ConfigurationError::MissingComponent,
                                                    ),
                                                ),
                                            }
                                        }
                                    },
                                    None => {
                                        if !ctrl.deployed_rod_in_air && ctrl.deployed_rod_entity
                                            is None {
                                            let anchor = FxVec2 {
                                                x: (p.pos.x * (SCALE as int) + fx::fx_mul_spec(
                                                    aim.0,
                                                    ctrl.stats.rod_anchor_dist as int,
                                                )) as i64,
                                                y: (p.pos.y * (SCALE as int) + fx::fx_mul_spec(
                                                    aim.1,
                                                    ctrl.stats.rod_anchor_dist as int,
                                                )) as i64,
                                            };
                                            let grab = swing_grab_spec(
                                                ctrl.stats,
                                                v.vel,
                                                p.pos,
                                                anchor,
                                            );
                                            (
                                                PlayerController {
                                                    deployed_rod_in_air: true,
                                                    deployed_rod_entity: Some(next_id),
                                                    state: PlayerState::Swinging(
                                                        Swinging {
                                                            angle: grab.0 as i64,
                                                            vel: grab.1 as i64,
                                                            anchor_pos: anchor,
                                                            swingee: next_id,
                                                        },
                                                    ),
                                                    ..ctrl
                                                },
                                                Some(anchor),
                                                None,
                                            )
                                        } else {
                                            (ctrl, None, None)
                                        }
                                    },
                                }
                            }
                        },
                        _ => (ctrl, None, Some(crate::world::ConfigurationError::MissingComponent)),
                    }
                }
            }
        },
    }
}


impl PlayerController {
    /// Try to start swinging, as [`check_start_spec`] describes: search
    /// for an anchor along the aim, else deploy a temporary rod if the
    /// budget allows, and on success enter the swinging state.
    #[verifier::rlimit(100)]
    pub fn check_start_swinging(
        &mut self,
        world: &mut crate::world::World,
        index: &SpatialIndex,
        me: Entity,
        controls: &ControlState,
    ) -> (r: Result<(), crate::world::ConfigurationError>)
        requires
            old(self).wf(),
            old(world).arena_ok(),
            old(world).next_id < crate::world::ID_LIM,
            controls.wf(),
        ensures
            ({
                let cs = check_start_spec(
                    *old(self),
                    me,
                    old(world).bodies@,
                    index.entries@,
                    old(world).next_id,
                    *controls,
                );
                &&& *final(self) == cs.0
                &&& final(world).bodies@ == old(world).bodies@
                &&& final(world).pending_despawns@ == old(world).pending_despawns@
                &&& (match cs.1 {
                    Some(anchor) => {
                        let plan_body = crate::world::body_of(
                            rod_plan_spec(anchor),
                            old(world).next_id,
                        );
                        final(world).pending_spawns@ == old(world).pending_spawns@.push(plan_body)
                            && final(world).next_id == old(world).next_id + 1
                    },
                    None => final(world).pending_spawns@ == old(world).pending_spawns@
                        && final(world).next_id == old(world).next_id,
                })
                &&& r == (match cs.2 {
                    Some(e) => Err::<(), crate::world::ConfigurationError>(e),
                    None => Ok::<(), crate::world::ConfigurationError>(()),
                })
            }),
            final(self).jump_buffer_countdown == old(self).jump_buffer_countdown,
            final(self).was_pressing_jump == old(self).was_pressing_jump,
            final(self).stats == old(self).stats,
            final(self).wf(),
            final(world).arena_ok(),
    {
        proof {
            reveal(check_start_spec);
        }
        let ghost cs = check_start_spec(
            *self,
            me,
            world.bodies@,
            index.entries@,
            world.next_id,
            *controls,
        );
        match self.state {
            PlayerState::Swinging(_) => Ok(()),
            PlayerState::Normal(n) => {
                if !controls.swing {
                    self.state = PlayerState::Normal(
                        Normal { state: n.state, was_swinging: false },
                    );
                    Ok(())
                } else {
                    let state_ok: bool = match n.state {
                        NormalState::OnGround => false,
                        _ => true,
                    };
                    if n.was_swinging || !state_ok {
                        Ok(())
                    } else {
                        match world.find_index(me) {
                            None => Err(crate::world::ConfigurationError::MissingComponent),
                            Some(bi) => {
                                proof {
                                    let j = crate::collision::body_index(world.bodies@, me);
                                    assert(0 <= j < world.bodies@.len() && world.bodies@[j].id
                                        == me);
                                    if j != bi {
                                        assert(world.bodies@[j].id != world.bodies@[bi as int].id);
                                    }
                                }
                                let b: Body = world.bodies[bi];
                                match (b.pos, b.vel) {
                                    (Some(p), Some(v)) => {
                                        let pos_ok: bool = -phys::POS_LIM <= p.pos.x && p.pos.x
                                            <= phys::POS_LIM && -phys::POS_LIM <= p.pos.y && p.pos.y
                                            <= phys::POS_LIM;
                                        let vel_ok: bool = -phys::VEL_LIM <= v.vel.x && v.vel.x
                                            <= phys::VEL_LIM && -phys::VEL_LIM <= v.vel.y && v.vel.y
                                            <= phys::VEL_LIM;
                                        if !pos_ok || !vel_ok {
                                            Err(crate::world::ConfigurationError::OutOfRange)
                                        } else {
                                            let lsq: u64 = controls.movement.len_sq();
                                            let aim: FxVec2 = if lsq < AIM_DEADZONE_SQ as u64 {
                                                FxVec2 { x: 0, y: -SCALE }
                                            } else {
                                                controls.movement.normalize_or_zero()
                                            };
                                            let found: Option<Entity> = search_anchor(
                                                world,
                                                index,
                                                p.pos,
                                                aim,
                                                &self.stats,
                                            );
                                            match found {
                                                Some(it) => {
                                                    match world.find_index(it) {
                                                        None => Err(
                                                            crate::world::ConfigurationError::MissingComponent,
                                                        ),
                                                        Some(biti) => {
                                                            proof {
                                                                let j =
                                                                    crate::collision::body_index(
                                                                    world.bodies@,
                                                                    it,
                                                                );
                                                                assert(0 <= j < world.bodies@.len()
                                                                    && world.bodies@[j].id == it);
                                                                if j != biti {
                                                                    assert(world.bodies@[j].id
                                                                        != world.bodies@[biti as int].id);
                                                                }
                                                            }
                                                            let bit: Body = world.bodies[biti];
                                                            match bit.pos {
                                                                None => Err(
                                                                    crate::world::ConfigurationError::MissingComponent,
                                                                ),
                                                                Some(pit) => {
                                                                    let pit_ok: bool = -phys::POS_LIM
                                                                        <= pit.pos.x && pit.pos.x
                                                                        <= phys::POS_LIM
                                                                        && -phys::POS_LIM
                                                                        <= pit.pos.y && pit.pos.y
                                                                        <= phys::POS_LIM;
                                                                    if !pit_ok {
                                                                        Err(
                                                                            crate::world::ConfigurationError::OutOfRange,
                                                                        )
                                                                    } else {
                                                                        let anchor = FxVec2 {
                                                                            x: fx::fx_of_px(
                                                                                pit.pos.x,
                                                                            ),
                                                                            y: fx::fx_of_px(
                                                                                pit.pos.y,
                                                                            ),
                                                                        };
                                                                        let grab: (i64, i64) =
                                                                            swing_grab(
                                                                            &self.stats,
                                                                            v.vel,
                                                                            p.pos,
                                                                            anchor,
                                                                        );
                                                                        self.state =
                                                                            PlayerState::Swinging(
                                                                            Swinging {
                                                                                angle: grab.0,
                                                                                vel: grab.1,
                                                                                anchor_pos: anchor,
                                                                                swingee: it,
                                                                            },
                                                                        );
                                                                        Ok(())
                                                                    }
                                                                },
                                                            }
                                                        },
                                                    }
                                                },
                                                None => {
                                                    let can_deploy: bool = !self.deployed_rod_in_air
                                                        && match self.deployed_rod_entity {
                                                        None => true,
                                                        Some(_) => false,
                                                    };
                                                    if can_deploy {
                                                        proof {
                                                            fx::lemma_mul_bound(
                                                                aim.x as int,
                                                                self.stats.rod_anchor_dist as int,
                                                                2 * SCALE as int,
                                                                crate::stats::SWING_STAT_LIM as int,
                                                            );
                                                            fx::lemma_mul_bound(
                                                                aim.y as int,
                                                                self.stats.rod_anchor_dist as int,
                                                                2 * SCALE as int,
                                                                crate::stats::SWING_STAT_LIM as int,
                                                            );
                                                            fx::lemma_trunc_div_bound(
                                                                (aim.x as int) * (
                                                                self.stats.rod_anchor_dist as int),
                                                                SCALE as int,
                                                            );
                                                            fx::lemma_trunc_div_bound(
                                                                (aim.y as int) * (
                                                                self.stats.rod_anchor_dist as int),
                                                                SCALE as int,
                                                            );
                                                        }
                                                        let anchor = FxVec2 {
                                                            x: fx::fx_of_px(p.pos.x) + fx::fx_mul(
                                                                aim.x,
                                                                self.stats.rod_anchor_dist,
                                                            ),
                                                            y: fx::fx_of_px(p.pos.y) + fx::fx_mul(
                                                                aim.y,
                                                                self.stats.rod_anchor_dist,
                                                            ),
                                                        };
                                                        let grab: (i64, i64) = swing_grab(
                                                            &self.stats,
                                                            v.vel,
                                                            p.pos,
                                                            anchor,
                                                        );
                                                        let rx: i64 = fx::fx_round(anchor.x);
                                                        let ry: i64 = fx::fx_round(anchor.y);
                                                        let plan = crate::world::BodyPlan {
                                                            pos: Some(
                                                                Positioned {
                                                                    pos: IVec2 {
                                                                        x: fx::fx_clamp(
                                                                            rx,
                                                                            -phys::POS_LIM as i64,
                                                                            phys::POS_LIM as i64,
                                                                        ) as i32,
                                                                        y: fx::fx_clamp(
                                                                            ry,
                                                                            -phys::POS_LIM as i64,
                                                                            phys::POS_LIM as i64,
                                                                        ) as i32,
                                                                    },
                                                                },
                                                            ),
                                                            dims: None,
                                                            mover: None,
                                                            vel: None,
                                                            kinematic: None,
                                                            friction: None,
                                                            age: None,
                                                            despawn_timer: None,
                                                            collider: false,
                                                            swingable: true,
                                                            bonker: false,
                                                        };
                                                        let e: Entity = world.lazy_spawn(plan);
                                                        self.deployed_rod_in_air = true;
                                                        self.deployed_rod_entity = Some(e);
                                                        self.state = PlayerState::Swinging(
                                                            Swinging {
                                                                angle: grab.0,
                                                                vel: grab.1,
                                                                anchor_pos: anchor,
                                                                swingee: e,
                                                            },
                                                        );
                                                        Ok(())
                                                    } else {
                                                        Ok(())
                                                    }
                                                },
                                            }
                                        }
                                    },
                                    _ => Err(crate::world::ConfigurationError::MissingComponent),
                                }
                            },
                        }
                    }
                }
            },
        }
    }
}


/// What one tick of swinging does: integrate the pendulum, derive the
/// player's velocity from the gap between its current position and the
/// position the rod dictates, and, on release (jump, letting go of the
/// swing input, or touching anything), despawn a self-deployed rod unless
/// jumping off it, convert the pendulum state into a launch velocity
/// through the angle cheat, and fall. Returns the controller, the bodies
/// with the player's velocity written, the rod to despawn if any, and the
/// configuration fault if a component was missing or out of bounds.
#[verifier::opaque]
pub open spec fn swing_move_spec(
    ctrl: PlayerController,
    me: Entity,
    bodies: Seq<Body>,
    controls: ControlState,
    dt: int,
) -> (PlayerController, Seq<Body>, Option<Entity>, Option<crate::world::ConfigurationError>) {
    match ctrl.state {
        PlayerState::Normal(_) => (ctrl, bodies, None, None),
        PlayerState::Swinging(sw) => {
            if !crate::world::body_with_id(bodies, me) {
                (ctrl, bodies, None, Some(crate::world::ConfigurationError::MissingComponent))
            } else {
                let bi = crate::collision::body_index(bodies, me);
                let b = bodies[bi];
                match (b.pos, b.vel, b.kinematic) {
                    (Some(p), Some(v), Some(ks)) => {
                        if !p.wf() {
                            (
                                ctrl,
                                bodies,
                                None,
                                Some(crate::world::ConfigurationError::OutOfRange),
                            )
                        } else {
                            let touching: bool = exists|d: crate::geom::Direction8|
                                ks.countdown(d) > 0;
                            let stats = ctrl.stats;
                            let ctl: int = fx::sgn_spec(controls.movement.x as int);
                            let step = swing_integrate_spec(stats, sw.angle as int, sw.vel as int, ctl, dt);
                            let angle2: int = step.0;
                            let vel2: int = step.1;
                            let ideal_x: int = sw.anchor_pos.x - fx::fx_mul_spec(
                                stats.rod_anchor_dist as int,
                                trig::sin_fx_spec(angle2),
                            );
                            let ideal_y: int = sw.anchor_pos.y + fx::fx_mul_spec(
                                stats.rod_anchor_dist as int,
                                trig::cos_fx_spec(angle2),
                            );
                            let pull_x: int = fx::clamp_spec(
                                fx::fx_div_spec(ideal_x - p.pos.x * (SCALE as int), dt),
                                -phys::VEL_LIM as int,
                                phys::VEL_LIM as int,
                            );
                            let pull_y: int = fx::clamp_spec(
                                fx::fx_div_spec(ideal_y - p.pos.y * (SCALE as int), dt),
                                -phys::VEL_LIM as int,
                                phys::VEL_LIM as int,
                            );
                            if controls.jump || !controls.swing || touching {
                                let despawn: Option<Entity> = if !controls.jump
                                    && ctrl.deployed_rod_entity == Some(sw.swingee) {
                                    Some(sw.swingee)
                                } else {
                                    None
                                };
                                let rod2: Option<Entity> = if despawn is Some {
                                    None
                                } else {
                                    ctrl.deployed_rod_entity
                                };
                                let ca: int = cheat_angle_spec(stats, angle2);
                                let launch_x: int = fx::fx_mul_spec(
                                    fx::fx_mul_spec(
                                        fx::fx_mul_spec(
                                            -trig::cos_fx_spec(ca),
                                            stats.swing_vel_to_vel_rate_x as int,
                                        ),
                                        vel2,
                                    ),
                                    stats.rod_anchor_dist as int,
                                );
                                let launch_y: int = fx::fx_mul_spec(
                                    fx::fx_mul_spec(
                                        fx::fx_mul_spec(
                                            -trig::sin_fx_spec(ca),
                                            stats.swing_vel_to_vel_rate_y as int,
                                        ),
                                        vel2,
                                    ),
                                    stats.rod_anchor_dist as int,
                                );
                                let b2 = Body {
                                    vel: Some(
                                        Velocitized {
                                            vel: FxVec2 { x: launch_x as i64, y: launch_y as i64 },
                                        },
                                    ),
                                    ..b
                                };
                                let ctrl2 = PlayerController {
                                    state: PlayerState::Normal(
                                        Normal { state: NormalState::Falling, was_swinging: true },
                                    ),
                                    deployed_rod_entity: rod2,
                                    ..ctrl
                                };
                                (ctrl2, bodies.update(bi, b2), despawn, None)
                            } else {
                                let b2 = Body {
                                    vel: Some(
                                        Velocitized {
                                            vel: FxVec2 { x: pull_x as i64, y: pull_y as i64 },
                                        },
                                    ),
                                    ..b
                                };
                                let ctrl2 = PlayerController {
                                    state: PlayerState::Swinging(
                                        Swinging {
                                            angle: angle2 as i64,
                                            vel: vel2 as i64,
                                            anchor_pos: sw.anchor_pos,
                                            swingee: sw.swingee,
                                        },
                                    ),
                                    ..ctrl
                                };
                                (ctrl2, bodies.update(bi, b2), None, None)
                            }
                        }
                    },
                    _ => (ctrl, bodies, None, Some(crate::world::ConfigurationError::MissingComponent)),
                }
            }
        },
    }
}

impl PlayerController {
    /// One tick of swinging physics, as [`swing_move_spec`] describes.
    #[verifier::rlimit(100)]
    pub fn swinging_movement(
        &mut self,
        world: &mut crate::world::World,
        me: Entity,
        controls: &ControlState,
        dt: i64,
    ) -> (r: Result<(), crate::world::ConfigurationError>)
        requires
            old(self).wf(),
            crate::world::ids_distinct(old(world).bodies@),
            controls.wf(),
            phys::DT_MIN <= dt <= phys::DT_MAX,
        ensures
            ({
                let sm = swing_move_spec(*old(self), me, old(world).bodies@, *controls, dt as int);
                &&& *final(self) == sm.0
                &&& final(world).bodies@ == sm.1
                &&& final(world).pending_spawns@ == old(world).pending_spawns@
                &&& (match sm.2 {
                    Some(e) => final(world).pending_despawns@ == old(
                        world,
                    ).pending_despawns@.push(e),
                    None => final(world).pending_despawns@ == old(world).pending_despawns@,
                })
                &&& final(world).next_id == old(world).next_id
                &&& r == (match sm.3 {
                    Some(e) => Err::<(), crate::world::ConfigurationError>(e),
                    None => Ok::<(), crate::world::ConfigurationError>(()),
                })
            }),
            final(self).jump_buffer_countdown == old(self).jump_buffer_countdown,
            final(self).was_pressing_jump == old(self).was_pressing_jump,
            final(self).stats == old(self).stats,
            final(self).deployed_rod_in_air == old(self).deployed_rod_in_air,
            final(self).wf(),
            crate::world::ids_distinct(final(world).bodies@),
            old(world).arena_ok() ==> final(world).arena_ok(),
    {
        proof {
            reveal(swing_move_spec);
        }
        let ghost bodies0: Seq<Body> = world.bodies@;
        match self.state {
            PlayerState::Normal(_) => Ok(()),
            PlayerState::Swinging(sw) => {
                match world.find_index(me) {
                    None => Err(crate::world::ConfigurationError::MissingComponent),
                    Some(bi) => {
                        proof {
                            let j = crate::collision::body_index(bodies0, me);
                            assert(0 <= j < bodies0.len() && bodies0[j].id == me);
                            if j != bi {
                                assert(bodies0[j].id != bodies0[bi as int].id);
                            }
                        }
                        let b: Body = world.bodies[bi];
                        match (b.pos, b.vel, b.kinematic) {
                            (Some(p), Some(v), Some(ks)) => {
                                let pos_ok: bool = -phys::POS_LIM <= p.pos.x && p.pos.x
                                    <= phys::POS_LIM && -phys::POS_LIM <= p.pos.y && p.pos.y
                                    <= phys::POS_LIM;
                                if !pos_ok {
                                    Err(crate::world::ConfigurationError::OutOfRange)
                                } else {
                                    let touching: bool = ks.touching_any();
                                    let ctl: i64 = fx::sgn(controls.movement.x);
                                    let step: (i64, i64) = swing_integrate(
                                        &self.stats,
                                        sw.angle,
                                        sw.vel,
                                        ctl,
                                        dt,
                                    );
                                    let angle2: i64 = step.0;
                                    let vel2: i64 = step.1;
                                    let sin2: i64 = trig::sin_fx(angle2);
                                    let cos2: i64 = trig::cos_fx(angle2);
                                    proof {
                                        fx::lemma_mul_bound(
                                            self.stats.rod_anchor_dist as int,
                                            sin2 as int,
                                            crate::stats::SWING_STAT_LIM as int,
                                            SCALE as int,
                                        );
                                        fx::lemma_mul_bound(
                                            self.stats.rod_anchor_dist as int,
                                            cos2 as int,
                                            crate::stats::SWING_STAT_LIM as int,
                                            SCALE as int,
                                        );
                                        fx::lemma_trunc_div_bound(
                                            (self.stats.rod_anchor_dist as int) * (sin2 as int),
                                            SCALE as int,
                                        );
                                        fx::lemma_trunc_div_bound(
                                            (self.stats.rod_anchor_dist as int) * (cos2 as int),
                                            SCALE as int,
                                        );
                                    }
                                    let ideal_x: i64 = sw.anchor_pos.x - fx::fx_mul(
                                        self.stats.rod_anchor_dist,
                                        sin2,
                                    );
                                    let ideal_y: i64 = sw.anchor_pos.y + fx::fx_mul(
                                        self.stats.rod_anchor_dist,
                                        cos2,
                                    );
                                    let diff_x: i64 = ideal_x - fx::fx_of_px(p.pos.x);
                                    let diff_y: i64 = ideal_y - fx::fx_of_px(p.pos.y);
                                    proof {
                                        fx::lemma_mul_bound(
                                            diff_x as int,
                                            SCALE as int,
                                            0x0080_0000_0000,
                                            SCALE as int,
                                        );
                                        fx::lemma_mul_bound(
                                            diff_y as int,
                                            SCALE as int,
                                            0x0080_0000_0000,
                                            SCALE as int,
                                        );
                                    }
                                    let pull_x: i64 = fx::fx_clamp(
                                        fx::fx_div(diff_x, dt),
                                        -phys::VEL_LIM,
                                        phys::VEL_LIM,
                                    );
                                    let pull_y: i64 = fx::fx_clamp(
                                        fx::fx_div(diff_y, dt),
                                        -phys::VEL_LIM,
                                        phys::VEL_LIM,
                                    );
                                    if controls.jump || !controls.swing || touching {
                                        let is_own_rod: bool = match self.deployed_rod_entity {
                                            Some(r0) => r0 == sw.swingee,
                                            None => false,
                                        };
                                        let do_despawn: bool = !controls.jump && is_own_rod;
                                        if do_despawn {
                                            world.lazy_despawn(sw.swingee);
                                            self.deployed_rod_entity = None;
                                        }
                                        let ca: i64 = cheat_angle(&self.stats, angle2);
                                        let sin_ca: i64 = trig::sin_fx(ca);
                                        let cos_ca: i64 = trig::cos_fx(ca);
                                        proof {
                                            fx::lemma_mul_bound(
                                                -cos_ca as int,
                                                self.stats.swing_vel_to_vel_rate_x as int,
                                                SCALE as int,
                                                crate::stats::SWING_STAT_LIM as int,
                                            );
                                            fx::lemma_mul_bound(
                                                -sin_ca as int,
                                                self.stats.swing_vel_to_vel_rate_y as int,
                                                SCALE as int,
                                                crate::stats::SWING_STAT_LIM as int,
                                            );
                                            fx::lemma_trunc_div_bound(
                                                (-cos_ca as int) * (
                                                self.stats.swing_vel_to_vel_rate_x as int),
                                                SCALE as int,
                                            );
                                            fx::lemma_trunc_div_bound(
                                                (-sin_ca as int) * (
                                                self.stats.swing_vel_to_vel_rate_y as int),
                                                SCALE as int,
                                            );
                                        }
                                        let raw_x: i64 = fx::fx_mul(
                                            -cos_ca,
                                            self.stats.swing_vel_to_vel_rate_x,
                                        );
                                        let raw_y: i64 = fx::fx_mul(
                                            -sin_ca,
                                            self.stats.swing_vel_to_vel_rate_y,
                                        );
                                        proof {
                                            fx::lemma_mul_bound(
                                                raw_x as int,
                                                vel2 as int,
                                                crate::stats::SWING_STAT_LIM as int,
                                                crate::stats::SWING_VEL_LIM as int,
                                            );
                                            fx::lemma_mul_bound(
                                                raw_y as int,
                                                vel2 as int,
                                                crate::stats::SWING_STAT_LIM as int,
                                                crate::stats::SWING_VEL_LIM as int,
                                            );
                                            fx::lemma_trunc_div_bound(
                                                (raw_x as int) * (vel2 as int),
                                                SCALE as int,
                                            );
                                            fx::lemma_trunc_div_bound(
                                                (raw_y as int) * (vel2 as int),
                                                SCALE as int,
                                            );
                                        }
                                        let rv_x: i64 = fx::fx_mul(raw_x, vel2);
                                        let rv_y: i64 = fx::fx_mul(raw_y, vel2);
                                        proof {
                                            fx::lemma_mul_bound(
                                                rv_x as int,
                                                self.stats.rod_anchor_dist as int,
                                                0x1000_0000,
                                                crate::stats::SWING_STAT_LIM as int,
                                            );
                                            fx::lemma_mul_bound(
                                                rv_y as int,
                                                self.stats.rod_anchor_dist as int,
                                                0x1000_0000,
                                                crate::stats::SWING_STAT_LIM as int,
                                            );
                                            fx::lemma_trunc_div_bound(
                                                (rv_x as int) * (self.stats.rod_anchor_dist as int),
                                                SCALE as int,
                                            );
                                            fx::lemma_trunc_div_bound(
                                                (rv_y as int) * (self.stats.rod_anchor_dist as int),
                                                SCALE as int,
                                            );
                                        }
                                        let launch_x: i64 = fx::fx_mul(
                                            rv_x,
                                            self.stats.rod_anchor_dist,
                                        );
                                        let launch_y: i64 = fx::fx_mul(
                                            rv_y,
                                            self.stats.rod_anchor_dist,
                                        );
                                        let mut b2: Body = b;
                                        b2.vel = Some(
                                            Velocitized { vel: FxVec2 { x: launch_x, y: launch_y } },
                                        );
                                        world.bodies[bi] = b2;
                                        self.state = PlayerState::Normal(
                                            Normal { state: NormalState::Falling, was_swinging: true },
                                        );
                                        proof {
                                            assert(forall|i2: int|
                                                0 <= i2 < world.bodies@.len()
                                                    ==> (#[trigger] world.bodies@[i2]).id
                                                    == bodies0[i2].id);
                                            assert(crate::world::ids_distinct(world.bodies@));
                                        }
                                        Ok(())
                                    } else {
                                        let mut b2: Body = b;
                                        b2.vel = Some(
                                            Velocitized { vel: FxVec2 { x: pull_x, y: pull_y } },
                                        );
                                        world.bodies[bi] = b2;
                                        self.state = PlayerState::Swinging(
                                            Swinging {
                                                angle: angle2,
                                                vel: vel2,
                                                anchor_pos: sw.anchor_pos,
                                                swingee: sw.swingee,
                                            },
                                        );
                                        proof {
                                            assert(forall|i2: int|
                                                0 <= i2 < world.bodies@.len()
                                                    ==> (#[trigger] world.bodies@[i2]).id
                                                    == bodies0[i2].id);
                                            assert(crate::world::ids_distinct(world.bodies@));
                                        }
                                        Ok(())
                                    }
                                }
                            },
                            _ => Err(crate::world::ConfigurationError::MissingComponent),
                        }
                    },
                }
            },
        }
    }
}


/// Everything one control tick does to the player: a rising edge on jump
/// refreshes the jump buffer; a swing may start; the state machine for the
/// current state runs and writes the player body's velocity; the jump
/// buffer then counts down and the jump edge tracker updates; finally the
/// reset input snaps the player body to the world origin, independent of
/// state. Returns the controller, the bodies, the anchor of a freshly
/// deployed rod if any, the rod to despawn if any, and the configuration
/// fault if one occurred.
pub open spec fn update_spec(
    ctrl: PlayerController,
    me: Entity,
    bodies: Seq<Body>,
    entries: Seq<crate::spatial::EntityAABB>,
    next_id: Entity,
    controls: ControlState,
    dt: int,
) -> (PlayerController, Seq<Body>, Option<FxVec2>, Option<Entity>, Option<
    crate::world::ConfigurationError,
>) {
    let rising: bool = controls.jump && !ctrl.was_pressing_jump;
    let buffer1: i64 = if rising {
        ctrl.stats.jump_buffer_len
    } else {
        ctrl.jump_buffer_countdown
    };
    let ctrl1 = PlayerController { jump_buffer_countdown: buffer1, ..ctrl };
    let cs = check_start_spec(ctrl1, me, bodies, entries, next_id, controls);
    if cs.2 is Some {
        (cs.0, bodies, cs.1, None, cs.2)
    } else {
        let ctrl2 = cs.0;
        let spawn = cs.1;
        let mv: (PlayerController, Seq<Body>, Option<Entity>, Option<
            crate::world::ConfigurationError,
        >) = match ctrl2.state {
            PlayerState::Normal(n) => {
                if !crate::world::body_with_id(bodies, me) {
                    (ctrl2, bodies, None, Some(crate::world::ConfigurationError::MissingComponent))
                } else {
                    let bi = crate::collision::body_index(bodies, me);
                    let b = bodies[bi];
                    match (b.vel, b.kinematic) {
                        (Some(v), Some(ks)) => {
                            if !v.vel.bounded(phys::VEL_LIM as int) {
                                (
                                    ctrl2,
                                    bodies,
                                    None,
                                    Some(crate::world::ConfigurationError::OutOfRange),
                                )
                            } else {
                                let grounded: bool = ks.countdown(crate::geom::Direction8::South)
                                    > 0;
                                let nm = normal_movement_spec(
                                    ctrl2.stats,
                                    n,
                                    buffer1 as int,
                                    ctrl2.deployed_rod_in_air,
                                    v.vel,
                                    grounded,
                                    controls,
                                    dt,
                                );
                                let b2 = Body {
                                    vel: Some(
                                        Velocitized {
                                            vel: FxVec2 { x: nm.1.0 as i64, y: nm.1.1 as i64 },
                                        },
                                    ),
                                    ..b
                                };
                                (
                                    PlayerController {
                                        state: PlayerState::Normal(nm.0),
                                        deployed_rod_in_air: nm.2,
                                        ..ctrl2
                                    },
                                    bodies.update(bi, b2),
                                    None,
                                    None,
                                )
                            }
                        },
                        _ => (
                            ctrl2,
                            bodies,
                            None,
                            Some(crate::world::ConfigurationError::MissingComponent),
                        ),
                    }
                }
            },
            PlayerState::Swinging(_) => {
                let sm = swing_move_spec(ctrl2, me, bodies, controls, dt);
                (sm.0, sm.1, sm.2, sm.3)
            },
        };
        if mv.3 is Some {
            (mv.0, mv.1, spawn, mv.2, mv.3)
        } else {
            let ctrl3 = mv.0;
            let buffer2: i64 = if buffer1 - dt >= 0 {
                (buffer1 - dt) as i64
            } else {
                0
            };
            let ctrl4 = PlayerController {
                jump_buffer_countdown: buffer2,
                was_pressing_jump: controls.jump,
                ..ctrl3
            };
            if controls.reset {
                let bodies2 = mv.1;
                if !crate::world::body_with_id(bodies2, me) {
                    (
                        ctrl4,
                        bodies2,
                        spawn,
                        mv.2,
                        Some(crate::world::ConfigurationError::MissingComponent),
                    )
                } else {
                    let bi2 = crate::collision::body_index(bodies2, me);
                    let bb = bodies2[bi2];
                    match bb.pos {
                        None => (
                            ctrl4,
                            bodies2,
                            spawn,
                            mv.2,
                            Some(crate::world::ConfigurationError::MissingComponent),
                        ),
                        Some(_) => (
                            ctrl4,
                            bodies2.update(
                                bi2,
                                Body { pos: Some(Positioned { pos: IVec2 { x: 0, y: 0 } }), ..bb },
                            ),
                            spawn,
                            mv.2,
                            None,
                        ),
                    }
                }
            } else {
                (ctrl4, mv.1, spawn, mv.2, None)
            }
        }
    }
}

impl PlayerController {
    /// One control tick, as [`update_spec`] describes.
    #[verifier::rlimit(100)]
    pub fn update_from_controls(
        &mut self,
        world: &mut crate::world::World,
        index: &SpatialIndex,
        me: Entity,
        controls: &ControlState,
        dt: i64,
    ) -> (r: Result<(), crate::world::ConfigurationError>)
        requires
            old(self).wf(),
            old(world).arena_ok(),
            old(world).next_id < crate::world::ID_LIM,
            controls.wf(),
            phys::DT_MIN <= dt <= phys::DT_MAX,
        ensures
            ({
                let us = update_spec(
                    *old(self),
                    me,
                    old(world).bodies@,
                    index.entries@,
                    old(world).next_id,
                    *controls,
                    dt as int,
                );
                &&& *final(self) == us.0
                &&& final(world).bodies@ == us.1
                &&& (match us.2 {
                    Some(anchor) => {
                        let plan_body = crate::world::body_of(
                            rod_plan_spec(anchor),
                            old(world).next_id,
                        );
                        final(world).pending_spawns@ == old(world).pending_spawns@.push(plan_body)
                            && final(world).next_id == old(world).next_id + 1
                    },
                    None => final(world).pending_spawns@ == old(world).pending_spawns@
                        && final(world).next_id == old(world).next_id,
                })
                &&& (match us.3 {
                    Some(e) => final(world).pending_despawns@ == old(
                        world,
                    ).pending_despawns@.push(e),
                    None => final(world).pending_despawns@ == old(world).pending_despawns@,
                })
                &&& r == (match us.4 {
                    Some(e) => Err::<(), crate::world::ConfigurationError>(e),
                    None => Ok::<(), crate::world::ConfigurationError>(()),
                })
            }),
            final(self).wf(),
            crate::world::ids_distinct(final(world).bodies@),
            final(world).arena_ok(),
    {
        let ghost bodies0: Seq<Body> = world.bodies@;
        if controls.jump && !self.was_pressing_jump {
            self.jump_buffer_countdown = self.stats.jump_buffer_len;
        }
        let ghost buffer1: i64 = self.jump_buffer_countdown;
        proof {
            let rising: bool = controls.jump && !old(self).was_pressing_jump;
            let ctrl1 = PlayerController { jump_buffer_countdown: buffer1, ..*old(self) };
            assert(buffer1 == if rising {
                old(self).stats.jump_buffer_len
            } else {
                old(self).jump_buffer_countdown
            });
            assert(*self == ctrl1);
        }
        match self.check_start_swinging(world, index, me, controls) {
            Err(e) => {
                return Err(e);
            },
            Ok(()) => {},
        }
        let mv_err: Option<crate::world::ConfigurationError> = match self.state {
            PlayerState::Normal(n) => {
                match world.find_index(me) {
                    None => Some(crate::world::ConfigurationError::MissingComponent),
                    Some(bi) => {
                        proof {
                            let j = crate::collision::body_index(bodies0, me);
                            assert(0 <= j < bodies0.len() && bodies0[j].id == me);
                            if j != bi {
                                assert(bodies0[j].id != bodies0[bi as int].id);
                            }
                        }
                        let b: Body = world.bodies[bi];
                        match (b.vel, b.kinematic) {
                            (Some(v), Some(ks)) => {
                                let vel_ok: bool = -phys::VEL_LIM <= v.vel.x && v.vel.x
                                    <= phys::VEL_LIM && -phys::VEL_LIM <= v.vel.y && v.vel.y
                                    <= phys::VEL_LIM;
                                if !vel_ok {
                                    Some(crate::world::ConfigurationError::OutOfRange)
                                } else {
                                    let grounded: bool = ks.touching(
                                        crate::geom::Direction8::South,
                                    );
                                    let nm: (Normal, FxVec2, bool) = normal_movement(
                                        &self.stats,
                                        n,
                                        self.jump_buffer_countdown,
                                        self.deployed_rod_in_air,
                                        v.vel,
                                        grounded,
                                        controls,
                                        dt,
                                    );
                                    self.state = PlayerState::Normal(nm.0);
                                    self.deployed_rod_in_air = nm.2;
                                    let mut b2: Body = b;
                                    b2.vel = Some(Velocitized { vel: nm.1 });
                                    world.bodies[bi] = b2;
                                    proof {
                                        assert(forall|i2: int|
                                            0 <= i2 < world.bodies@.len()
                                                ==> (#[trigger] world.bodies@[i2]).id
                                                == bodies0[i2].id);
                                        assert(crate::world::ids_distinct(world.bodies@));
                                    }
                                    None
                                }
                            },
                            _ => Some(crate::world::ConfigurationError::MissingComponent),
                        }
                    },
                }
            },
            PlayerState::Swinging(_) => {
                match self.swinging_movement(world, me, controls, dt) {
                    Err(e) => Some(e),
                    Ok(()) => None,
                }
            },
        };
        match mv_err {
            Some(e) => {
                return Err(e);
            },
            None => {},
        }
        self.jump_buffer_countdown = if self.jump_buffer_countdown - dt >= 0 {
            self.jump_buffer_countdown - dt
        } else {
            0
        };
        self.was_pressing_jump = controls.jump;
        if controls.reset {
            let ghost bodies2: Seq<Body> = world.bodies@;
            match world.find_index(me) {
                None => {
                    return Err(crate::world::ConfigurationError::MissingComponent);
                },
                Some(bi2) => {
                    proof {
                        let j = crate::collision::body_index(bodies2, me);
                        assert(0 <= j < bodies2.len() && bodies2[j].id == me);
                        if j != bi2 {
                            assert(bodies2[j].id != bodies2[bi2 as int].id);
                        }
                    }
                    let bb: Body = world.bodies[bi2];
                    match bb.pos {
                        None => {
                            return Err(crate::world::ConfigurationError::MissingComponent);
                        },
                        Some(_) => {
                            let mut b3: Body = bb;
                            b3.pos = Some(Positioned { pos: IVec2 { x: 0, y: 0 } });
                            world.bodies[bi2] = b3;
                            proof {
                                assert(forall|i2: int|
                                    0 <= i2 < world.bodies@.len()
                                        ==> (#[trigger] world.bodies@[i2]).id == bodies2[i2].id);
                                assert(crate::world::ids_distinct(world.bodies@));
                            }
                        },
                    }
                },
            }
        }
        Ok(())
    }
}


/// The buffered-jump value the state machine checks `k` ticks after the
/// press that refreshed it: the refreshed length, counted down by one
/// tick length per tick with no further press, floored at zero. This is
/// exactly how [`update_spec`] evolves the countdown: a rising edge loads
/// the buffer length, the state machine reads it, and it then counts
/// down.
pub open spec fn buffer_chain(len: int, dt: int, k: nat) -> int
    decreases k,
{
    if k == 0 {
        len
    } else {
        let prev: int = buffer_chain(len, dt, (k - 1) as nat);
        if prev - dt >= 0 {
            prev - dt
        } else {
            0
        }
    }
}

/// The jump-buffer law, first half: the checked buffer value `k` ticks
/// after the press is the buffer length less `k` tick lengths, floored
/// at zero. So a jump pressed strictly less than the buffer length
/// before landing still registers on landing (the check is positive),
/// and one pressed at least the buffer length before does not (the
/// check is zero).
pub proof fn lemma_jump_buffer_window(len: int, dt: int, k: nat)
    requires
        len >= 0,
        dt > 0,
    ensures
        buffer_chain(len, dt, k) == if len - k * dt >= 0 {
            len - k * dt
        } else {
            0
        },
        k * dt < len ==> buffer_chain(len, dt, k) > 0,
        k * dt >= len ==> buffer_chain(len, dt, k) == 0,
    decreases k,
{
    if k == 0 {
        assert((k as int) * dt == 0) by (nonlinear_arith)
            requires
                k == 0,
        ;
    } else {
        lemma_jump_buffer_window(len, dt, (k - 1) as nat);
        assert((k as int) * dt == ((k - 1) as int) * dt + dt) by (nonlinear_arith);
        assert((k as int) * dt >= dt > 0) by (nonlinear_arith)
            requires
                k >= 1,
                dt > 0,
        ;
    }
}

/// The jump-buffer law, second half: standing on the ground with no
/// buffered jump stays on the ground — only a positive buffer produces
/// the takeoff that [`lemma_jump_takeoff`] describes.
pub proof fn lemma_no_buffer_no_jump(
    stats: PlayerStats,
    n: Normal,
    jump_buffer: int,
    rod_in_air: bool,
    vel: FxVec2,
    controls: ControlState,
    dt: int,
)
    requires
        n.state == NormalState::OnGround,
        jump_buffer <= 0,
    ensures
        normal_movement_spec(
            stats,
            n,
            jump_buffer,
            rod_in_air,
            vel,
            true,
            controls,
            dt,
        ).0.state == NormalState::OnGround,
{
    reveal(normal_movement_spec);
}

impl PlayerController {
    /// Whether the controller's numbers are within bounds; the exact
    /// run-time test for [`PlayerController::wf`].
    pub fn check_wf(&self) -> (r: bool)
        ensures
            r == self.wf(),
    {
        let s = &self.stats;
        let stats_ok: bool = 0 <= s.walk_terminal_vel && s.walk_terminal_vel
            <= crate::stats::STAT_LIM && 0 <= s.walk_accel && s.walk_accel <= crate::stats::STAT_LIM
            && 0 <= s.walk_friction && s.walk_friction <= crate::stats::STAT_LIM && 0
            <= s.walk_turn_accel && s.walk_turn_accel <= crate::stats::STAT_LIM && 0
            <= s.walk_overfast_friction && s.walk_overfast_friction <= crate::stats::STAT_LIM && 0
            <= s.air_terminal_vel && s.air_terminal_vel <= crate::stats::STAT_LIM && 0
            <= s.air_accel && s.air_accel <= crate::stats::STAT_LIM && 0 <= s.air_friction
            && s.air_friction <= crate::stats::STAT_LIM && 0 <= s.air_turn_accel
            && s.air_turn_accel <= crate::stats::STAT_LIM && 0 <= s.air_overfast_friction
            && s.air_overfast_friction <= crate::stats::STAT_LIM && 0 <= s.jump_height
            && s.jump_height <= crate::stats::STAT_LIM && 0 <= s.time_to_jump_apex
            && s.time_to_jump_apex <= crate::stats::STAT_LIM && 0 <= s.jump_impulse_vel
            && s.jump_impulse_vel <= crate::stats::STAT_LIM && 0 <= s.jump_gravity
            && s.jump_gravity <= crate::stats::STAT_LIM && 0 <= s.jump_release_gravity
            && s.jump_release_gravity <= crate::stats::STAT_LIM && 0 <= s.falling_gravity
            && s.falling_gravity <= crate::stats::STAT_LIM && 0 <= s.coyote_gravity
            && s.coyote_gravity <= crate::stats::STAT_LIM && 0 <= s.fall_terminal_vel
            && s.fall_terminal_vel <= crate::stats::STAT_LIM && 0 <= s.plummet_terminal_vel
            && s.plummet_terminal_vel <= crate::stats::STAT_LIM && 0 <= s.fall_friction_y
            && s.fall_friction_y <= crate::stats::STAT_LIM && 0 <= s.plummet_friction_y
            && s.plummet_friction_y <= crate::stats::STAT_LIM && 0 <= s.coyote_time
            && s.coyote_time <= crate::stats::STAT_LIM && 0 <= s.jump_buffer_len
            && s.jump_buffer_len <= crate::stats::STAT_LIM && 0 <= s.rod_anchor_dist
            && s.rod_anchor_dist <= crate::stats::SWING_STAT_LIM && 0 <= s.vel_to_swing_vel_rate
            && s.vel_to_swing_vel_rate <= crate::stats::SWING_STAT_LIM && 0 <= s.swing_gravity
            && s.swing_gravity <= crate::stats::SWING_STAT_LIM && 0 <= s.swing_friction
            && s.swing_friction <= crate::stats::SWING_STAT_LIM && 0 <= s.swing_too_far_angle
            && s.swing_too_far_angle <= crate::stats::SWING_STAT_LIM && 0 <= s.swing_too_far_gravity
            && s.swing_too_far_gravity <= crate::stats::SWING_STAT_LIM && 0 <= s.player_swing_acc
            && s.player_swing_acc <= crate::stats::SWING_STAT_LIM && 0 <= s.swing_terminal_vel
            && s.swing_terminal_vel <= crate::stats::SWING_VEL_LIM && 0 <= s.swing_vel_to_vel_rate_x
            && s.swing_vel_to_vel_rate_x <= crate::stats::SWING_STAT_LIM && 0
            <= s.swing_vel_to_vel_rate_y && s.swing_vel_to_vel_rate_y <= crate::stats::SWING_STAT_LIM
            && 0 <= s.start_grab_speed_cheat_min && s.start_grab_speed_cheat_min
            <= crate::stats::SWING_STAT_LIM && 0 <= s.start_grab_speed_cheat_max
            && s.start_grab_speed_cheat_max <= crate::stats::SWING_STAT_LIM && 0
            <= s.angle_to_cheat_launch_vel_at && s.angle_to_cheat_launch_vel_at
            <= trig::HALF_PI_FX && 2 * SCALE <= s.angle_launch_vel_cheat_factor
            && s.angle_launch_vel_cheat_factor <= crate::stats::SWING_STAT_LIM && 0
            <= s.grab_extant_step_size && s.grab_extant_step_size <= crate::stats::SWING_STAT_LIM
            && s.grab_extant_step_count <= 64 && 0 <= s.grab_extant_swingable_radius
            && s.grab_extant_swingable_radius <= crate::stats::GRAB_RADIUS_LIM && 0
            <= s.grab_extant_swingable_radius_increment && s.grab_extant_swingable_radius_increment
            <= crate::stats::GRAB_RADIUS_LIM && 0 <= s.grab_extant_start_size
            && s.grab_extant_start_size <= crate::stats::GRAB_RADIUS_LIM;
        let buffer_ok: bool = 0 <= self.jump_buffer_countdown && self.jump_buffer_countdown
            <= crate::stats::STAT_LIM;
        let state_ok: bool = match self.state {
            PlayerState::Normal(n) => match n.state {
                NormalState::FallingFromLedge { coyote_countdown } => 0 <= coyote_countdown
                    && coyote_countdown <= crate::stats::STAT_LIM,
                _ => true,
            },
            PlayerState::Swinging(sw) => -PI_FX - SCALE <= sw.angle && sw.angle <= PI_FX + SCALE
                && -SWING_VEL_CAP <= sw.vel && sw.vel <= SWING_VEL_CAP && -ANCHOR_LIM
                <= sw.anchor_pos.x && sw.anchor_pos.x <= ANCHOR_LIM && -ANCHOR_LIM
                <= sw.anchor_pos.y && sw.anchor_pos.y <= ANCHOR_LIM,
        };
        stats_ok && buffer_ok && state_ok
    }
}

} // verus!
