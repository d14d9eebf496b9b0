//! The arena, the deferred structural changes, the whole-tick
//! orchestration and the camera.

use gymnast::camera::Camera;
use gymnast::controls::ControlState;
use gymnast::fx::SCALE;
use gymnast::phys::AgeTracker;
use gymnast::phys::FrictionHaver;
use gymnast::phys::HasDims;
use gymnast::phys::IVec2;
use gymnast::phys::KinematicState;
use gymnast::phys::LimitedTimeOffer;
use gymnast::phys::Mover;
use gymnast::phys::Positioned;
use gymnast::phys::Velocitized;
use gymnast::player::PlayerController;
use gymnast::spatial::HitboxTracker;
use gymnast::tick::tick;
use gymnast::vec2::FxVec2;
use gymnast::world::BodyPlan;
use gymnast::world::World;

const DT: i64 = 1092;

fn bare_plan() -> BodyPlan {
    BodyPlan {
        pos: None,
        dims: None,
        mover: None,
        vel: None,
        kinematic: None,
        friction: None,
        age: None,
        despawn_timer: None,
        collider: false,
        swingable: false,
        bonker: false,
    }
}

fn full_body(x: i32, y: i32) -> BodyPlan {
    let mut p = bare_plan();
    p.pos = Some(Positioned::new(IVec2::new(x, y)));
    p.dims = Some(HasDims::new(8, 16));
    p.mover = Some(Mover::new());
    p.vel = Some(Velocitized::still());
    p.kinematic = Some(KinematicState::new());
    p
}

#[test]
fn spawn_assigns_fresh_handles() {
    let mut world = World::new();
    let a = world.spawn(bare_plan());
    let b = world.spawn(bare_plan());
    assert_ne!(a, b);
    assert!(world.find_index(a).is_some());
    assert!(world.find_index(b).is_some());
    assert!(world.find_index(99).is_none());
    assert!(world.check_wf());
}

#[test]
fn lazy_changes_apply_on_finalize() {
    let mut world = World::new();
    let a = world.spawn(bare_plan());
    let b = world.lazy_spawn(bare_plan());
    assert!(world.find_index(b).is_none(), "pending spawns are invisible");
    world.lazy_despawn(a);
    world.finalize();
    assert!(world.find_index(a).is_none(), "despawned");
    assert!(world.find_index(b).is_some(), "committed");
}

#[test]
fn despawn_timer_expires_through_ticks() {
    let mut world = World::new();
    let me = world.spawn(full_body(0, 0));
    let mut doomed_plan = bare_plan();
    doomed_plan.despawn_timer = Some(LimitedTimeOffer { time_remaining: 2 });
    doomed_plan.age = Some(AgeTracker { age: 0 });
    let doomed = world.spawn(doomed_plan);
    let mut player = PlayerController::new();
    let c = ControlState::neutral();
    // Two ticks count the timer down; the third finds zero and removes.
    for _ in 0..2 {
        tick(&mut world, &mut player, me, &c, DT).unwrap();
        assert!(world.find_index(doomed).is_some());
    }
    tick(&mut world, &mut player, me, &c, DT).unwrap();
    assert!(world.find_index(doomed).is_none());
}

#[test]
fn age_counts_ticks() {
    let mut world = World::new();
    let me = world.spawn(full_body(0, 0));
    let mut aged_plan = bare_plan();
    aged_plan.age = Some(AgeTracker { age: 0 });
    let aged = world.spawn(aged_plan);
    let mut player = PlayerController::new();
    let c = ControlState::neutral();
    for _ in 0..5 {
        tick(&mut world, &mut player, me, &c, DT).unwrap();
    }
    let b = world.bodies[world.find_index(aged).unwrap()];
    assert_eq!(b.age.unwrap().age, 5);
}

/// A whole tick: stored velocity turns into movement and the body stops
/// on the platform, all through the public entry point.
#[test]
fn tick_moves_and_stops_a_faller() {
    let mut world = World::new();
    let me = world.spawn(full_body(500, 0));
    let mut faller_plan = full_body(0, 0);
    faller_plan.vel = Some(Velocitized { vel: FxVec2 { x: 0, y: 400 * SCALE } });
    faller_plan.bonker = true;
    let faller = world.spawn(faller_plan);
    let mut platform = bare_plan();
    platform.pos = Some(Positioned::new(IVec2::new(0, 16)));
    platform.dims = Some(HasDims::new(8, 8));
    platform.collider = true;
    world.spawn(platform);
    let mut player = PlayerController::new();
    let c = ControlState::neutral();
    let hits = tick(&mut world, &mut player, me, &c, DT).unwrap();
    let b = world.bodies[world.find_index(faller).unwrap()];
    assert_eq!(b.pos.unwrap().pos, IVec2::new(0, 4));
    assert!(b.kinematic.unwrap().touching(gymnast::geom::Direction8::South));
    assert_eq!(hits.len(), 1);
    assert_eq!(hits[0].bonker, faller);
}

#[test]
fn merge_or_buttons_and_renormalizes() {
    let mut a = ControlState::neutral();
    a.movement = FxVec2 { x: SCALE, y: 0 };
    a.jump = true;
    let mut b = ControlState::neutral();
    b.movement = FxVec2 { x: -SCALE, y: 0 };
    b.swing = true;
    let m = a.merge(&b);
    assert_eq!((m.movement.x, m.movement.y), (0, 0));
    assert!(m.jump && m.swing && !m.reset);
    let n = a.merge(&a);
    // Two rightward sticks still give a unit rightward aim.
    assert_eq!(n.movement.x, SCALE);
    assert_eq!(n.movement.y, 0);
}

#[test]
fn velocity_impulse_caps_at_terminal() {
    // A huge acceleration over one tick wants far more than the 5 px/s
    // terminal speed, so the velocity is pulled back onto that circle.
    let mut v = Velocitized::still();
    v.impulse(FxVec2 { x: 1000 * SCALE, y: 0 }, 5 * SCALE, DT);
    assert_eq!(v.vel.x, 5 * SCALE);
    assert_eq!(v.vel.y, 0);
    // A modest one lands below the terminal speed and sticks exactly.
    let mut w = Velocitized::still();
    w.impulse(FxVec2 { x: 100 * SCALE, y: 0 }, 5 * SCALE, DT);
    assert_eq!(w.vel.x, 100 * DT);
}

#[test]
fn friction_scales_velocity_down() {
    let fr: i64 = 30 * SCALE;
    let f = FrictionHaver { friction: fr };
    let v0 = FxVec2 { x: 100 * SCALE, y: -40 * SCALE };
    let mut v = Velocitized { vel: v0 };
    f.apply(&mut v, DT);
    // One tick keeps 1 - friction * dt of the speed, here about half.
    let coeff: i64 = SCALE - gymnast::fx::fx_mul(fr, DT);
    assert_eq!(v.vel.x, gymnast::fx::fx_mul(v0.x, coeff));
    assert_eq!(v.vel.y, gymnast::fx::fx_mul(v0.y, coeff));
    assert!(v.vel.x < v0.x && v.vel.x > 0);
    // Friction strong enough to flip the sign stops the body outright.
    let g = FrictionHaver { friction: 100 * SCALE * 60 };
    g.apply(&mut v, DT);
    assert_eq!((v.vel.x, v.vel.y), (0, 0));
}

#[test]
fn camera_eases_and_clamps() {
    let mut cam = Camera::new();
    cam.update(IVec2::new(0, 0));
    assert_eq!(cam.center(), IVec2::new(0, 0));
    // The bounding box runs x in [-160, 160); with a 320-wide view the
    // camera can only sit at x = 0.
    cam.update(IVec2::new(4000, 0));
    assert_eq!(cam.center().x, 0);
    // Easing closes all but a quarter of the gap each tick.
    cam.update(IVec2::new(0, 100));
    assert_eq!(cam.center().y, 75);
}

#[test]
fn make_hitbox_matches_both_ways() {
    let p = Positioned::new(IVec2::new(10, 20));
    let d = HasDims::new(6, 4);
    assert_eq!(p.make_hitbox(d), d.make_hitbox(p));
    let hb = p.make_hitbox(d);
    assert_eq!((hb.x1, hb.x2, hb.y1, hb.y2), (7, 13, 18, 22));
}

#[test]
fn from_vec_rounds_to_pixels() {
    let p = Positioned::from_vec(FxVec2 { x: 3 * SCALE + SCALE / 2, y: -SCALE / 2 });
    assert_eq!(p.pos, IVec2::new(4, -1));
}

#[test]
fn tracker_acts_as_a_set() {
    let mut t = HitboxTracker::new();
    t.on_create(4);
    t.on_create(9);
    t.on_create(4);
    assert!(t.contains(4));
    assert!(t.contains(9));
    assert!(!t.contains(7));
    assert_eq!(t.iter(), vec![4, 9]);
    t.on_remove(4);
    assert!(!t.contains(4));
    assert!(t.contains(9));
    t.on_remove(7);
    assert_eq!(t.iter(), vec![9]);
}
