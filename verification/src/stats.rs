//! The player's tunable movement numbers, in fixed point: pixels per
//! second for speeds, pixels per second squared for accelerations,
//! seconds for times, radians for angles.

use vstd::prelude::*;
use crate::fx::SCALE;
use crate::trig::HALF_PI_FX;

verus! {

/// Largest magnitude a speed, acceleration or time stat may take.
pub const STAT_LIM: i64 = 0x1_0000_0000;

/// Largest magnitude a swing-related stat may take.
pub const SWING_STAT_LIM: i64 = 0x0100_0000;

/// Largest angular speed the swing may be tuned to, in fixed-point
/// radians per second.
pub const SWING_VEL_LIM: i64 = 0x0010_0000;

/// Largest pixel radius the anchor probes may be tuned to.
pub const GRAB_RADIUS_LIM: i32 = 256;

/// The player's movement tunables.
#[derive(Clone, Copy, Debug, PartialEq, Eq, Structural)]
pub struct PlayerStats {
    pub walk_terminal_vel: i64,
    /// Expressible as "seconds required to get to/from terminal velocity".
    pub walk_accel: i64,
    /// Slowing toward a stop on the ground.
    pub walk_friction: i64,
    pub walk_turn_accel: i64,
    /// Slowing down while over target speed in the walked direction.
    pub walk_overfast_friction: i64,
    pub air_terminal_vel: i64,
    pub air_accel: i64,
    pub air_friction: i64,
    pub air_turn_accel: i64,
    pub air_overfast_friction: i64,
    pub jump_height: i64,
    pub time_to_jump_apex: i64,
    /// Derived from kinematics: `2 * height / time to apex`.
    pub jump_impulse_vel: i64,
    /// Gravity when rising from a jump.
    pub jump_gravity: i64,
    /// Gravity when rising from a jump but not holding jump.
    pub jump_release_gravity: i64,
    /// Normal falling gravity.
    pub falling_gravity: i64,
    /// Grace-period gravity when falling off a ledge.
    pub coyote_gravity: i64,
    pub fall_terminal_vel: i64,
    pub plummet_terminal_vel: i64,
    /// Deceleration toward the fall terminal velocity when over it.
    pub fall_friction_y: i64,
    pub plummet_friction_y: i64,
    pub coyote_time: i64,
    pub jump_buffer_len: i64,
    pub rod_anchor_dist: i64,
    pub vel_to_swing_vel_rate: i64,
    pub swing_gravity: i64,
    pub swing_friction: i64,
    pub swing_too_far_angle: i64,
    pub swing_too_far_gravity: i64,
    /// Amount the player's controls add to the swing.
    pub player_swing_acc: i64,
    pub swing_terminal_vel: i64,
    pub swing_vel_to_vel_rate_x: i64,
    pub swing_vel_to_vel_rate_y: i64,
    /// If the starting swing speed falls between these two, snap it up to
    /// the larger one, so grabbing from near rest still swings.
    pub start_grab_speed_cheat_min: i64,
    pub start_grab_speed_cheat_max: i64,
    /// Past this release angle, shrink the angle in the player's favor to
    /// make near-horizontal launches easier.
    pub angle_to_cheat_launch_vel_at: i64,
    pub angle_launch_vel_cheat_factor: i64,
    /// To grab a rod already in the world, probe a growing sequence of
    /// boxes stepped outward along the aim direction.
    pub grab_extant_step_size: i64,
    pub grab_extant_step_count: usize,
    /// The radius around a probe center within which a rod can be grabbed.
    pub grab_extant_swingable_radius: i32,
    pub grab_extant_swingable_radius_increment: i32,
    pub grab_extant_start_size: i32,
    pub rod_deployments_from_ground: u32,
    pub debugdraw_grab_hbs: bool,
}

impl PlayerStats {
    /// Every stat nonnegative and within the cap its uses rely on; the
    /// launch-cheat threshold at most a quarter turn with a factor of at
    /// least two, so cheated release angles stay within half a turn.
    pub open spec fn wf(self) -> bool {
        &&& 0 <= self.walk_terminal_vel <= STAT_LIM
        &&& 0 <= self.walk_accel <= STAT_LIM
        &&& 0 <= self.walk_friction <= STAT_LIM
        &&& 0 <= self.walk_turn_accel <= STAT_LIM
        &&& 0 <= self.walk_overfast_friction <= STAT_LIM
        &&& 0 <= self.air_terminal_vel <= STAT_LIM
        &&& 0 <= self.air_accel <= STAT_LIM
        &&& 0 <= self.air_friction <= STAT_LIM
        &&& 0 <= self.air_turn_accel <= STAT_LIM
        &&& 0 <= self.air_overfast_friction <= STAT_LIM
        &&& 0 <= self.jump_height <= STAT_LIM
        &&& 0 <= self.time_to_jump_apex <= STAT_LIM
        &&& 0 <= self.jump_impulse_vel <= STAT_LIM
        &&& 0 <= self.jump_gravity <= STAT_LIM
        &&& 0 <= self.jump_release_gravity <= STAT_LIM
        &&& 0 <= self.falling_gravity <= STAT_LIM
        &&& 0 <= self.coyote_gravity <= STAT_LIM
        &&& 0 <= self.fall_terminal_vel <= STAT_LIM
        &&& 0 <= self.plummet_terminal_vel <= STAT_LIM
        &&& 0 <= self.fall_friction_y <= STAT_LIM
        &&& 0 <= self.plummet_friction_y <= STAT_LIM
        &&& 0 <= self.coyote_time <= STAT_LIM
        &&& 0 <= self.jump_buffer_len <= STAT_LIM
        &&& 0 <= self.rod_anchor_dist <= SWING_STAT_LIM
        &&& 0 <= self.vel_to_swing_vel_rate <= SWING_STAT_LIM
        &&& 0 <= self.swing_gravity <= SWING_STAT_LIM
        &&& 0 <= self.swing_friction <= SWING_STAT_LIM
        &&& 0 <= self.swing_too_far_angle <= SWING_STAT_LIM
        &&& 0 <= self.swing_too_far_gravity <= SWING_STAT_LIM
        &&& 0 <= self.player_swing_acc <= SWING_STAT_LIM
        &&& 0 <= self.swing_terminal_vel <= SWING_VEL_LIM
        &&& 0 <= self.swing_vel_to_vel_rate_x <= SWING_STAT_LIM
        &&& 0 <= self.swing_vel_to_vel_rate_y <= SWING_STAT_LIM
        &&& 0 <= self.start_grab_speed_cheat_min <= SWING_STAT_LIM
        &&& 0 <= self.start_grab_speed_cheat_max <= SWING_STAT_LIM
        &&& 0 <= self.angle_to_cheat_launch_vel_at <= HALF_PI_FX
        &&& 2 * SCALE <= self.angle_launch_vel_cheat_factor <= SWING_STAT_LIM
        &&& 0 <= self.grab_extant_step_size <= SWING_STAT_LIM
        &&& self.grab_extant_step_count <= 64
        &&& 0 <= self.grab_extant_swingable_radius <= GRAB_RADIUS_LIM
        &&& 0 <= self.grab_extant_swingable_radius_increment <= GRAB_RADIUS_LIM
        &&& 0 <= self.grab_extant_start_size <= GRAB_RADIUS_LIM
    }
}

/// The stock tuning: a 96 px/s walk reaching speed in 0.3 s, a 40 px jump
/// apexing in 0.45 s, a tenth of a second of jump buffer, a twentieth of
/// coyote time, and a 12 px rod.
pub open spec fn default_player_stats() -> PlayerStats {
    PlayerStats {
        walk_terminal_vel: 6291456,
        walk_accel: 20971520,
        walk_friction: 188743680,
        walk_turn_accel: 377487360,
        walk_overfast_friction: 188743680,
        air_terminal_vel: 6291456,
        air_accel: 20971520,
        air_friction: 188743680,
        air_turn_accel: 377487360,
        air_overfast_friction: 188743680,
        jump_height: 2621440,
        time_to_jump_apex: 29491,
        jump_impulse_vel: 11650844,
        jump_gravity: 25890765,
        jump_release_gravity: 77672295,
        falling_gravity: 64726912,
        coyote_gravity: 32363456,
        fall_terminal_vel: 17694720,
        plummet_terminal_vel: 26214400,
        fall_friction_y: 64726912,
        plummet_friction_y: 64726912,
        coyote_time: 3277,
        jump_buffer_len: 6554,
        rod_anchor_dist: 786432,
        vel_to_swing_vel_rate: 3277,
        swing_gravity: 327680,
        swing_friction: 3277,
        swing_too_far_angle: 102943,
        swing_too_far_gravity: 655360,
        player_swing_acc: 262144,
        swing_terminal_vel: 851968,
        swing_vel_to_vel_rate_x: 147456,
        swing_vel_to_vel_rate_y: 163840,
        start_grab_speed_cheat_min: 98304,
        start_grab_speed_cheat_max: 589824,
        angle_to_cheat_launch_vel_at: 92649,
        angle_launch_vel_cheat_factor: 131072,
        grab_extant_step_size: 524288,
        grab_extant_step_count: 4,
        grab_extant_swingable_radius: 6,
        grab_extant_swingable_radius_increment: 2,
        grab_extant_start_size: 8,
        rod_deployments_from_ground: 1,
        debugdraw_grab_hbs: false,
    }
}

impl Default for PlayerStats {
    /// The stock tuning.
    fn default() -> (r: PlayerStats)
        ensures
            r == default_player_stats(),
            r.wf(),
    {
        PlayerStats {
            walk_terminal_vel: 6291456,
            walk_accel: 20971520,
            walk_friction: 188743680,
            walk_turn_accel: 377487360,
            walk_overfast_friction: 188743680,
            air_terminal_vel: 6291456,
            air_accel: 20971520,
            air_friction: 188743680,
            air_turn_accel: 377487360,
            air_overfast_friction: 188743680,
            jump_height: 2621440,
            time_to_jump_apex: 29491,
            jump_impulse_vel: 11650844,
            jump_gravity: 25890765,
            jump_release_gravity: 77672295,
            falling_gravity: 64726912,
            coyote_gravity: 32363456,
            fall_terminal_vel: 17694720,
            plummet_terminal_vel: 26214400,
            fall_friction_y: 64726912,
            plummet_friction_y: 64726912,
            coyote_time: 3277,
            jump_buffer_len: 6554,
            rod_anchor_dist: 786432,
            vel_to_swing_vel_rate: 3277,
            swing_gravity: 327680,
            swing_friction: 3277,
            swing_too_far_angle: 102943,
            swing_too_far_gravity: 655360,
            player_swing_acc: 262144,
            swing_terminal_vel: 851968,
            swing_vel_to_vel_rate_x: 147456,
            swing_vel_to_vel_rate_y: 163840,
            start_grab_speed_cheat_min: 98304,
            start_grab_speed_cheat_max: 589824,
            angle_to_cheat_launch_vel_at: 92649,
            angle_launch_vel_cheat_factor: 131072,
            grab_extant_step_size: 524288,
            grab_extant_step_count: 4,
            grab_extant_swingable_radius: 6,
            grab_extant_swingable_radius_increment: 2,
            grab_extant_start_size: 8,
            rod_deployments_from_ground: 1,
            debugdraw_grab_hbs: false,
        }
    }
}

} // verus!
