//! The player state machine: the acceleration experiment, jump
//! takeoff, the jump-buffer window, kinematic decay, the swing
//! equilibrium, and the error taxonomy.

use gymnast::controls::ControlState;
use gymnast::fx;
use gymnast::fx::SCALE;
use gymnast::geom::Direction8;
use gymnast::geom::Hitbox;
use gymnast::phys::HasDims;
use gymnast::phys::IVec2;
use gymnast::phys::KinematicState;
use gymnast::phys::Mover;
use gymnast::phys::Positioned;
use gymnast::phys::Velocitized;
use gymnast::player::NormalState;
use gymnast::player::PlayerController;
use gymnast::player::PlayerState;
use gymnast::player::accelerate_towards;
use gymnast::player::swing_integrate;
use gymnast::spatial::SpatialIndex;
use gymnast::stats::PlayerStats;
use gymnast::vec2::FxVec2;
use gymnast::world::BodyPlan;
use gymnast::world::ConfigurationError;
use gymnast::world::World;

const DT: i64 = 1092;

#[test]
fn acc() {
    let mut v: i64 = 10 * SCALE;
    for _ in 0..30 {
        v = accelerate_towards(v, -5 * SCALE, SCALE / 2, SCALE);
        println!("{:?}", v);
    }
}

#[test]
fn accelerate_never_overshoots() {
    // Speeding up is capped by accel.
    assert_eq!(accelerate_towards(0, 10 * SCALE, 3 * SCALE, SCALE), 3 * SCALE);
    // Slowing down from above the target uses decel.
    assert_eq!(accelerate_towards(10 * SCALE, 2 * SCALE, 3 * SCALE, SCALE), 9 * SCALE);
    // Close targets are reached exactly.
    assert_eq!(accelerate_towards(0, SCALE / 4, 3 * SCALE, SCALE), SCALE / 4);
    // A zero accel leaves the value alone.
    assert_eq!(accelerate_towards(5, 500, 0, 100), 5);
}

fn neutral() -> ControlState {
    ControlState::neutral()
}

fn jumping() -> ControlState {
    let mut c = ControlState::neutral();
    c.jump = true;
    c
}

fn player_plan(x: i32, y: i32) -> BodyPlan {
    BodyPlan {
        pos: Some(Positioned::new(IVec2::new(x, y))),
        dims: Some(HasDims::new(8, 16)),
        mover: Some(Mover::new()),
        vel: Some(Velocitized::still()),
        kinematic: Some(KinematicState::new()),
        friction: None,
        age: None,
        despawn_timer: None,
        collider: false,
        swingable: false,
        bonker: false,
    }
}

fn ground_touch(world: &mut World, me: u64) {
    let i = world.find_index(me).unwrap();
    let mut ks = world.bodies[i].kinematic.unwrap();
    ks.record_touch(Direction8::South);
    world.bodies[i].kinematic = Some(ks);
}

/// Grounded with a buffered jump: the sub-state becomes `JumpingUp` and
/// the vertical velocity is the jump impulse (upward), with exactly one
/// tick of jump-held gravity applied after the takeoff.
#[test]
fn jump_press_on_ground_takes_off() {
    let mut world = World::new();
    let me = world.spawn(player_plan(0, 0));
    ground_touch(&mut world, me);
    let index = SpatialIndex::rebuild(&world);
    let mut player = PlayerController::new();
    let r = player.update_from_controls(&mut world, &index, me, &jumping(), DT);
    assert!(r.is_ok());
    match player.state {
        PlayerState::Normal(n) => assert_eq!(n.state, NormalState::JumpingUp),
        PlayerState::Swinging(_) => panic!("not swinging"),
    }
    let stats = PlayerStats::default();
    let expected = accelerate_towards(
        -stats.jump_impulse_vel,
        stats.fall_terminal_vel,
        fx::fx_mul(stats.jump_gravity, DT),
        fx::fx_mul(stats.fall_friction_y, DT),
    );
    let b = world.bodies[world.find_index(me).unwrap()];
    assert_eq!(b.vel.unwrap().vel.y, expected);
    assert_eq!(b.vel.unwrap().vel.x, 0);
}

/// A jump pressed a few ticks before landing still fires on the tick
/// after touching down; one pressed too long before does not.
fn run_buffered_landing(airborne_ticks: usize) -> NormalState {
    let mut world = World::new();
    let me = world.spawn(player_plan(0, 0));
    let index = SpatialIndex::rebuild(&world);
    let mut player = PlayerController::new();
    // Fall off the ledge so the press does not fire immediately.
    player.state = PlayerState::Normal(gymnast::player::Normal {
        state: NormalState::Falling,
        was_swinging: false,
    });
    // Press the jump mid-air (the rising edge loads the buffer)...
    player.update_from_controls(&mut world, &index, me, &jumping(), DT).unwrap();
    // ... stay airborne for a while with the button released ...
    for _ in 0..airborne_ticks {
        player.update_from_controls(&mut world, &index, me, &neutral(), DT).unwrap();
    }
    // ... then land: Falling becomes OnGround this tick, and the next
    // tick consumes the buffer if it is still running.
    ground_touch(&mut world, me);
    player.update_from_controls(&mut world, &index, me, &neutral(), DT).unwrap();
    ground_touch(&mut world, me);
    player.update_from_controls(&mut world, &index, me, &neutral(), DT).unwrap();
    match player.state {
        PlayerState::Normal(n) => n.state,
        PlayerState::Swinging(_) => panic!("not swinging"),
    }
}

#[test]
fn jump_buffer_window() {
    // The buffer is 0.1 s (6554 units) and each tick burns 1092: a
    // short coast keeps the press alive through the landing pair...
    assert_eq!(run_buffered_landing(2), NormalState::JumpingUp);
    // ... but pressing too early expires the buffer.
    assert_eq!(run_buffered_landing(8), NormalState::OnGround);
}

/// Touching a direction remembers it for exactly three decay ticks.
#[test]
fn kinematic_decay_window() {
    let mut ks = KinematicState::new();
    ks.record_touch(Direction8::South);
    assert!(ks.touching(Direction8::South));
    assert!(ks.touching_any());
    ks.decay();
    assert!(ks.touching(Direction8::South));
    ks.decay();
    assert!(ks.touching(Direction8::South));
    ks.decay();
    assert!(!ks.touching(Direction8::South));
    assert!(!ks.touching_any());
}

/// Hanging at rest straight down is a stable equilibrium: angle and
/// angular velocity stay exactly zero with no control input.
#[test]
fn swing_equilibrium_is_stable() {
    let stats = PlayerStats::default();
    let mut angle: i64 = 0;
    let mut vel: i64 = 0;
    for _ in 0..600 {
        let (a2, v2) = swing_integrate(&stats, angle, vel, 0, DT);
        angle = a2;
        vel = v2;
    }
    assert_eq!(angle, 0);
    assert_eq!(vel, 0);
}

/// A displaced pendulum swings back toward the bottom.
#[test]
fn swing_restores_toward_down() {
    let stats = PlayerStats::default();
    // Start half a radian to the left, at rest.
    let (_, v2) = swing_integrate(&stats, SCALE / 2, 0, 0, DT);
    assert!(v2 < 0, "gravity must pull the angle back: {}", v2);
}

#[test]
fn missing_player_is_a_configuration_error() {
    let mut world = World::new();
    let index = SpatialIndex::rebuild(&world);
    let mut player = PlayerController::new();
    let r = player.update_from_controls(&mut world, &index, 42, &neutral(), DT);
    assert_eq!(r, Err(ConfigurationError::MissingComponent));
}

#[test]
fn missing_velocity_is_a_configuration_error() {
    let mut world = World::new();
    let mut plan = player_plan(0, 0);
    plan.vel = None;
    let me = world.spawn(plan);
    let index = SpatialIndex::rebuild(&world);
    let mut player = PlayerController::new();
    let r = player.update_from_controls(&mut world, &index, me, &neutral(), DT);
    assert_eq!(r, Err(ConfigurationError::MissingComponent));
}

#[test]
fn oversized_velocity_is_out_of_range() {
    let mut world = World::new();
    let me = world.spawn(player_plan(0, 0));
    let i = world.find_index(me).unwrap();
    world.bodies[i].vel = Some(Velocitized {
        vel: FxVec2 { x: gymnast::phys::VEL_LIM + 1, y: 0 },
    });
    let index = SpatialIndex::rebuild(&world);
    let mut player = PlayerController::new();
    let r = player.update_from_controls(&mut world, &index, me, &neutral(), DT);
    assert_eq!(r, Err(ConfigurationError::OutOfRange));
}

/// The reset input snaps the player to the origin whatever else happens.
#[test]
fn reset_snaps_to_origin() {
    let mut world = World::new();
    let me = world.spawn(player_plan(37, -12));
    let index = SpatialIndex::rebuild(&world);
    let mut player = PlayerController::new();
    let mut c = neutral();
    c.reset = true;
    player.update_from_controls(&mut world, &index, me, &c, DT).unwrap();
    let b = world.bodies[world.find_index(me).unwrap()];
    assert_eq!(b.pos.unwrap().pos, IVec2::new(0, 0));
}

/// Swinging from a fall: pressing swing mid-air with no anchor nearby
/// deploys a rod one rod-length along the aim (straight up for a neutral
/// stick) and enters the swinging state at angle zero.
#[test]
fn swing_deploys_rod_straight_up() {
    let mut world = World::new();
    let me = world.spawn(player_plan(0, 0));
    let index = SpatialIndex::rebuild(&world);
    let mut player = PlayerController::new();
    player.state = PlayerState::Normal(gymnast::player::Normal {
        state: NormalState::Falling,
        was_swinging: false,
    });
    let mut c = neutral();
    c.swing = true;
    player.update_from_controls(&mut world, &index, me, &c, DT).unwrap();
    match player.state {
        PlayerState::Swinging(sw) => {
            assert_eq!(sw.angle, 0);
            // The anchor sits 12 px straight above the player.
            assert_eq!(sw.anchor_pos.x, 0);
            assert_eq!(sw.anchor_pos.y, -12 * SCALE);
            assert_eq!(Some(sw.swingee), player.deployed_rod_entity);
        },
        PlayerState::Normal(_) => panic!("expected a swing to start"),
    }
    assert!(player.deployed_rod_in_air);
    // The rod body appears when the tick's changes are committed.
    assert_eq!(world.pending_spawns.len(), 1);
    world.finalize();
    let rod = player.deployed_rod_entity.unwrap();
    let ri = world.find_index(rod).unwrap();
    assert!(world.bodies[ri].swingable);
    assert_eq!(world.bodies[ri].pos.unwrap().pos, IVec2::new(0, -12));
}

/// An existing swingable anchor is preferred over deploying a rod.
#[test]
fn swing_grabs_existing_anchor() {
    let mut world = World::new();
    let me = world.spawn(player_plan(0, 0));
    let mut anchor_plan = player_plan(0, -12);
    anchor_plan.mover = None;
    anchor_plan.vel = None;
    anchor_plan.kinematic = None;
    anchor_plan.swingable = true;
    let anchor = world.spawn(anchor_plan);
    let index = SpatialIndex::rebuild(&world);
    let mut player = PlayerController::new();
    player.state = PlayerState::Normal(gymnast::player::Normal {
        state: NormalState::Falling,
        was_swinging: false,
    });
    let mut c = neutral();
    c.swing = true;
    player.update_from_controls(&mut world, &index, me, &c, DT).unwrap();
    match player.state {
        PlayerState::Swinging(sw) => {
            assert_eq!(sw.swingee, anchor);
            assert_eq!(sw.anchor_pos.y, -12 * SCALE);
        },
        PlayerState::Normal(_) => panic!("expected a swing to start"),
    }
    // No rod was deployed.
    assert_eq!(player.deployed_rod_entity, None);
    assert_eq!(world.pending_spawns.len(), 0);
}

/// Releasing the swing input drops back to falling and despawns a
/// self-deployed rod.
#[test]
fn swing_release_launches_and_recalls_rod() {
    let mut world = World::new();
    let me = world.spawn(player_plan(0, 0));
    let index = SpatialIndex::rebuild(&world);
    let mut player = PlayerController::new();
    player.state = PlayerState::Normal(gymnast::player::Normal {
        state: NormalState::Falling,
        was_swinging: false,
    });
    let mut c = neutral();
    c.swing = true;
    player.update_from_controls(&mut world, &index, me, &c, DT).unwrap();
    let rod = player.deployed_rod_entity.unwrap();
    // Let go of the swing input.
    player.update_from_controls(&mut world, &index, me, &neutral(), DT).unwrap();
    match player.state {
        PlayerState::Normal(n) => {
            assert_eq!(n.state, NormalState::Falling);
            assert!(n.was_swinging);
        },
        PlayerState::Swinging(_) => panic!("expected the swing to end"),
    }
    assert_eq!(player.deployed_rod_entity, None);
    assert_eq!(world.pending_despawns.len(), 1);
    assert_eq!(world.pending_despawns[0], rod);
}

/// Stepping off a ledge leaves a short grace window in which a jump
/// still fires; after the window only falling remains.
fn run_coyote(airborne_ticks: usize) -> NormalState {
    let mut world = World::new();
    let me = world.spawn(player_plan(0, 0));
    let index = SpatialIndex::rebuild(&world);
    let mut player = PlayerController::new();
    ground_touch(&mut world, me);
    player.update_from_controls(&mut world, &index, me, &neutral(), DT).unwrap();
    // The player walks off the ledge: the ground touch is gone.
    let i = world.find_index(me).unwrap();
    world.bodies[i].kinematic = Some(KinematicState::new());
    for _ in 0..airborne_ticks {
        player.update_from_controls(&mut world, &index, me, &neutral(), DT).unwrap();
    }
    player.update_from_controls(&mut world, &index, me, &jumping(), DT).unwrap();
    match player.state {
        PlayerState::Normal(n) => n.state,
        PlayerState::Swinging(_) => panic!("not swinging"),
    }
}

#[test]
fn coyote_window_allows_a_late_jump() {
    // Coyote time is 0.05 s (3277 units), three ticks of 1092.
    assert_eq!(run_coyote(1), NormalState::JumpingUp);
    assert_eq!(run_coyote(6), NormalState::FallingFromLedge { coyote_countdown: 0 });
}

#[test]
fn shifted_hitbox_recenters_on_the_corner() {
    let hb = Hitbox::new(0, 0, 8, 8);
    // The shift takes the top-left corner, displaces it, and builds a
    // new box centered there.
    let moved = hb.shifted_by(1, 2);
    assert_eq!((moved.x1, moved.x2, moved.y1, moved.y2), (-7, 1, -6, 2));
}

/// A swing attempt with no anchor in range and no rod budget is a no-op:
/// the player stays in the normal state.
#[test]
fn swing_without_budget_is_a_no_op() {
    let mut world = World::new();
    let me = world.spawn(player_plan(0, 0));
    let index = SpatialIndex::rebuild(&world);
    let mut player = PlayerController::new();
    player.state = PlayerState::Normal(gymnast::player::Normal {
        state: NormalState::Falling,
        was_swinging: false,
    });
    player.deployed_rod_in_air = true;
    let mut c = neutral();
    c.swing = true;
    player.update_from_controls(&mut world, &index, me, &c, DT).unwrap();
    assert!(matches!(player.state, PlayerState::Normal(_)));
    assert_eq!(world.pending_spawns.len(), 0);
}

/// After a swing ends, holding the swing input cannot start a new one;
/// the input must be released and pressed again.
#[test]
fn swing_needs_a_fresh_press() {
    let mut world = World::new();
    let me = world.spawn(player_plan(0, 0));
    let index = SpatialIndex::rebuild(&world);
    let mut player = PlayerController::new();
    player.state = PlayerState::Normal(gymnast::player::Normal {
        state: NormalState::Falling,
        was_swinging: true,
    });
    let mut c = neutral();
    c.swing = true;
    player.update_from_controls(&mut world, &index, me, &c, DT).unwrap();
    assert!(matches!(player.state, PlayerState::Normal(_)));
    // Releasing the input clears the latch...
    player.update_from_controls(&mut world, &index, me, &neutral(), DT).unwrap();
    // ... and the next press swings.
    player.update_from_controls(&mut world, &index, me, &c, DT).unwrap();
    assert!(matches!(player.state, PlayerState::Swinging(_)));
}

/// Swinging from the ground is refused: only airborne states can grab.
#[test]
fn swing_from_the_ground_is_refused() {
    let mut world = World::new();
    let me = world.spawn(player_plan(0, 0));
    ground_touch(&mut world, me);
    let index = SpatialIndex::rebuild(&world);
    let mut player = PlayerController::new();
    let mut c = neutral();
    c.swing = true;
    player.update_from_controls(&mut world, &index, me, &c, DT).unwrap();
    assert!(matches!(player.state, PlayerState::Normal(_)));
    assert_eq!(world.pending_spawns.len(), 0);
}
