//! The swept collision resolver: geometry, no tunneling, the scenario of
//! a fast fall onto a platform, and the one-contact-per-pair rule.

use gymnast::collision::BonkCache;
use gymnast::collision;
use gymnast::fx;
use gymnast::fx::SCALE;
use gymnast::geom::Direction8;
use gymnast::geom::Hitbox;
use gymnast::phys::HasDims;
use gymnast::phys::IVec2;
use gymnast::phys::KinematicState;
use gymnast::phys::Mover;
use gymnast::phys::Positioned;
use gymnast::phys::Velocitized;
use gymnast::spatial::SpatialIndex;
use gymnast::vec2::FxVec2;
use gymnast::world::BodyPlan;
use gymnast::world::World;

fn empty_plan() -> BodyPlan {
    BodyPlan {
        pos: None,
        dims: None,
        mover: None,
        vel: None,
        kinematic: None,
        friction: None,
        age: None,
        despawn_timer: None,
        collider: false,
        swingable: false,
        bonker: false,
    }
}

fn solid_at(x: i32, y: i32, w: i32, h: i32) -> BodyPlan {
    let mut p = empty_plan();
    p.pos = Some(Positioned::new(IVec2::new(x, y)));
    p.dims = Some(HasDims::new(w, h));
    p.collider = true;
    p
}

fn mover_at(x: i32, y: i32, w: i32, h: i32) -> BodyPlan {
    let mut p = empty_plan();
    p.pos = Some(Positioned::new(IVec2::new(x, y)));
    p.dims = Some(HasDims::new(w, h));
    p.mover = Some(Mover::new());
    p.vel = Some(Velocitized::still());
    p.kinematic = Some(KinematicState::new());
    p.bonker = true;
    p
}

#[test]
fn hitbox_centering() {
    let hb = Hitbox::new(0, 0, 8, 8);
    assert_eq!((hb.x1, hb.x2, hb.y1, hb.y2), (-4, 4, -4, 4));
    assert_eq!(hb.center(), (0, 0));
    assert_eq!(hb.w(), 8);
    assert_eq!(hb.h(), 8);
}

#[test]
fn touching_boxes_do_not_overlap() {
    let a = Hitbox::new(0, 0, 8, 8);
    let b = Hitbox::new(8, 0, 8, 8);
    // They share the edge x = 4 but no area.
    assert!(!a.overlaps(&b));
    let c = Hitbox::new(7, 0, 8, 8);
    assert!(a.overlaps(&c));
}

#[test]
fn spatial_query_reports_exactly() {
    let mut world = World::new();
    let a = world.spawn(solid_at(0, 0, 8, 8));
    let _b = world.spawn(solid_at(16, 0, 8, 8));
    let c = world.spawn(solid_at(3, 3, 8, 8));
    let index = SpatialIndex::rebuild(&world);
    let hits = index.get_entities_in_box(Hitbox::new(0, 0, 8, 8));
    assert_eq!(hits, vec![a, c]);
}

#[test]
fn bonk_cache_flips_normals() {
    let mut cache = BonkCache::new();
    cache.insert(7, 3, 1, 0);
    assert_eq!(cache.get(3, 7), Some((1, 0)));
    assert_eq!(cache.get(7, 3), Some((-1, 0)));
    assert_eq!(cache.get(3, 8), None);
}

/// A body at the origin falling at 400 px/s for one sixtieth of a second
/// stops with its bottom edge exactly on the platform's top edge, and a
/// South touch is recorded.
#[test]
fn fast_fall_stops_on_platform_top() {
    let mut world = World::new();
    let faller = world.spawn(mover_at(0, 0, 8, 16));
    let _platform = world.spawn(solid_at(0, 16, 8, 8));
    let dt: i64 = 1092;  // about 1/60 s in Q16.16
    let vy: i64 = 400 * SCALE;
    // One tick's velocity becomes movement remainder.
    let fi = world.find_index(faller).unwrap();
    world.bodies[fi].mover = Some(Mover {
        remainder: FxVec2 { x: 0, y: fx::fx_mul(vy, dt) },
    });
    world.bodies[fi].vel = Some(Velocitized { vel: FxVec2 { x: 0, y: vy } });
    let hits = collision::do_collision(&mut world);

    let b = world.bodies[world.find_index(faller).unwrap()];
    // The platform top is at y = 12; half the body height is 8.
    assert_eq!(b.pos.unwrap().pos, IVec2::new(0, 4));
    // The whole-pixel part of the intended 6.67 px was rounded to 7 and
    // subtracted; the leftover stays sub-pixel.
    assert_eq!(b.mover.unwrap().remainder.y, fx::fx_mul(vy, dt) - 7 * SCALE);
    // The touch is recorded and the bonker lost its vertical velocity.
    assert_eq!(b.kinematic.unwrap().south, 3);
    assert_eq!(b.vel.unwrap().vel.y, 0);
    assert_eq!(hits.len(), 1);
    assert_eq!(hits[0].bonker, faller);
    assert_eq!(hits[0].normal, Direction8::South);
}

/// A body fast enough to cross the obstacle in one tick still stops on
/// the last free pixel before it.
#[test]
fn no_tunneling_through_thin_wall() {
    let mut world = World::new();
    let dasher = world.spawn(mover_at(0, 0, 8, 8));
    let _wall = world.spawn(solid_at(40, 0, 8, 8));
    let di = world.find_index(dasher).unwrap();
    world.bodies[di].mover = Some(Mover {
        remainder: FxVec2 { x: 100 * SCALE, y: 0 },
    });
    let _hits = collision::do_collision(&mut world);
    let b = world.bodies[world.find_index(dasher).unwrap()];
    // The wall spans x in [36, 44); the body is 8 wide, so the last free
    // center is 32, not 100.
    assert_eq!(b.pos.unwrap().pos, IVec2::new(32, 0));
    assert_eq!(b.kinematic.unwrap().east, 3);
}

/// Two axes blocked by the same body produce exactly one compound
/// contact; different bodies produce both contacts; conflicting corner
/// signs fall back to the canonical north-east default.
#[test]
fn one_contact_for_a_corner_hit() {
    let ax = collision::AxisMove {
        remainder: FxVec2 { x: 0, y: 0 },
        new_center: IVec2::new(0, 0),
        bonk: Some((5, true)),
    };
    let ay_same = collision::AxisMove {
        remainder: FxVec2 { x: 0, y: 0 },
        new_center: IVec2::new(0, 0),
        bonk: Some((5, true)),
    };
    let both = collision::calculate_bonkees(&ax, &ay_same);
    assert_eq!(both, vec![(5, Direction8::SouthEast)]);

    let ay_up = collision::AxisMove { bonk: Some((5, false)), ..ay_same };
    assert_eq!(collision::calculate_bonkees(&ax, &ay_up), vec![(5, Direction8::NorthEast)]);
    let ax_left = collision::AxisMove { bonk: Some((5, false)), ..ax };
    assert_eq!(
        collision::calculate_bonkees(&ax_left, &ay_up),
        vec![(5, Direction8::NorthEast)],
    );
    assert_eq!(
        collision::calculate_bonkees(&ax_left, &ay_same),
        vec![(5, Direction8::SouthWest)],
    );

    let ay_other = collision::AxisMove { bonk: Some((9, true)), ..ay_same };
    assert_eq!(
        collision::calculate_bonkees(&ax, &ay_other),
        vec![(5, Direction8::East), (9, Direction8::South)],
    );
    let none = collision::AxisMove { bonk: None, ..ax };
    assert_eq!(collision::calculate_bonkees(&none, &ay_same), vec![(5, Direction8::South)]);
    assert_eq!(collision::calculate_bonkees(&ax, &none), vec![(5, Direction8::East)]);
    assert_eq!(collision::calculate_bonkees(&none, &none), vec![]);
}

/// A diagonal mover blocked on each axis by a different body reports both
/// contacts.
#[test]
fn corner_between_two_walls() {
    let mut world = World::new();
    let diag = world.spawn(mover_at(0, 0, 8, 8));
    let wall = world.spawn(solid_at(12, 0, 8, 8));
    let floor = world.spawn(solid_at(0, 12, 8, 8));
    let di = world.find_index(diag).unwrap();
    world.bodies[di].mover = Some(Mover {
        remainder: FxVec2 { x: 6 * SCALE, y: 6 * SCALE },
    });
    let hits = collision::do_collision(&mut world);
    assert_eq!(hits.len(), 2);
    assert_eq!(hits[0].bonkee, wall);
    assert_eq!(hits[0].normal, Direction8::East);
    assert_eq!(hits[1].bonkee, floor);
    assert_eq!(hits[1].normal, Direction8::South);
}

/// With nothing in the way, whole pixels plus the leftover remainder
/// equal the accumulated intent exactly, tick after tick.
#[test]
fn subpixel_conservation_over_ticks() {
    let mut world = World::new();
    let drifter = world.spawn(mover_at(0, 0, 8, 8));
    let step: i64 = 250 * SCALE / 100;  // 2.5 px per tick
    let mut accumulated: i64 = 0;
    for _ in 0..7 {
        let di = world.find_index(drifter).unwrap();
        let m = world.bodies[di].mover.unwrap();
        world.bodies[di].mover = Some(Mover {
            remainder: FxVec2 { x: m.remainder.x + step, y: m.remainder.y },
        });
        accumulated += step;
        let _ = collision::do_collision(&mut world);
        let b = world.bodies[world.find_index(drifter).unwrap()];
        let pos_fx = (b.pos.unwrap().pos.x as i64) * SCALE;
        assert_eq!(pos_fx + b.mover.unwrap().remainder.x, accumulated);
    }
}
