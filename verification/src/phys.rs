//! Per-body physics components: placement, size, sub-pixel movement
//! remainder, velocity, touch memory and the marker roles.

use vstd::prelude::*;
use crate::fx;
use crate::fx::SCALE;
use crate::geom;
use crate::geom::Direction8;
use crate::geom::Hitbox;
use crate::vec2::FxVec2;
use crate::vec2;

verus! {

/// Largest magnitude a body position coordinate may take, in pixels.
pub const POS_LIM: i32 = 0x0010_0000;

/// Largest magnitude a velocity component may take, in fixed-point
/// pixels per second.
pub const VEL_LIM: i64 = 0x0000_0800_0000_0000;

/// Largest magnitude a movement-remainder component may take, in
/// fixed-point pixels.
pub const REM_LIM: i64 = 0x0200_0000_0000;

/// Shortest tick accepted by the simulation, about a millisecond.
pub const DT_MIN: i64 = 64;

/// Longest tick accepted by the simulation, a twentieth of a second.
pub const DT_MAX: i64 = 3276;

/// An integer point in world pixels.
#[derive(Clone, Copy, Debug, PartialEq, Eq, Structural)]
pub struct IVec2 {
    pub x: i32,
    pub y: i32,
}

impl IVec2 {
    /// Build a point from its coordinates.
    pub fn new(x: i32, y: i32) -> (r: IVec2)
        ensures
            r.x == x,
            r.y == y,
    {
        IVec2 { x, y }
    }
}

/// Indicates this is placed in the world. Local `(0, 0)` is the center.
#[derive(Clone, Copy, Debug, PartialEq, Eq, Structural)]
pub struct Positioned {
    pub pos: IVec2,
}

impl Positioned {
    /// A position within the world bounds.
    pub open spec fn wf(self) -> bool {
        &&& -POS_LIM <= self.pos.x <= POS_LIM
        &&& -POS_LIM <= self.pos.y <= POS_LIM
    }

    /// Wrap a point as a position component.
    pub fn new(pos: IVec2) -> (r: Positioned)
        ensures
            r.pos == pos,
    {
        Positioned { pos }
    }

    /// The position nearest to a fixed-point point, rounding each
    /// coordinate to the nearest pixel.
    pub fn from_vec(vec: FxVec2) -> (r: Positioned)
        requires
            vec.bounded(fx::PRODUCT_LIM as int),
        ensures
            r.pos.x == fx::fx_round_spec(vec.x as int) as i32,
            r.pos.y == fx::fx_round_spec(vec.y as int) as i32,
    {
        let rx: i64 = fx::fx_round(vec.x);
        let ry: i64 = fx::fx_round(vec.y);
        Positioned { pos: IVec2 { x: rx as i32, y: ry as i32 } }
    }

    /// Create a hitbox of the given dimensions at the center point.
    pub fn make_hitbox(&self, dims: HasDims) -> (r: Hitbox)
        requires
            self.wf(),
            dims.wf(),
        ensures
            r == Hitbox::new_spec(
                self.pos.x as int,
                self.pos.y as int,
                dims.w as int,
                dims.h as int,
            ),
            r.wf(),
    {
        Hitbox::new(self.pos.x, self.pos.y, dims.w, dims.h)
    }
}

/// Indicates this has a width and height.
#[derive(Clone, Copy, Debug, PartialEq, Eq, Structural)]
pub struct HasDims {
    pub w: i32,
    pub h: i32,
}

impl HasDims {
    /// Dimensions that are nonnegative and within the size cap.
    pub open spec fn wf(self) -> bool {
        &&& 0 <= self.w <= geom::DIM_LIM
        &&& 0 <= self.h <= geom::DIM_LIM
    }

    /// Wrap a width and height as a dimension component.
    pub fn new(w: i32, h: i32) -> (r: HasDims)
        ensures
            r.w == w,
            r.h == h,
    {
        HasDims { w, h }
    }

    /// Create a hitbox of these dimensions at the given position.
    pub fn make_hitbox(&self, pos: Positioned) -> (r: Hitbox)
        requires
            self.wf(),
            pos.wf(),
        ensures
            r == Hitbox::new_spec(pos.pos.x as int, pos.pos.y as int, self.w as int, self.h as int),
            r.wf(),
    {
        pos.make_hitbox(*self)
    }
}

/// Data component that indicates this has the ability to move. The
/// remainder accumulates intended movement that has not yet produced a
/// whole-pixel step.
#[derive(Clone, Copy, Debug, PartialEq, Eq, Structural)]
pub struct Mover {
    pub remainder: FxVec2,
}

impl Mover {
    /// A mover whose remainder is within the accumulation bound.
    pub open spec fn wf(self) -> bool {
        self.remainder.bounded(REM_LIM as int)
    }

    /// A mover with no accumulated movement.
    pub fn new() -> (r: Mover)
        ensures
            r.remainder.x == 0,
            r.remainder.y == 0,
            r.wf(),
    {
        Mover { remainder: FxVec2 { x: 0, y: 0 } }
    }

    /// Accumulate an intended displacement into the remainder.
    pub fn move_by(&mut self, dv: FxVec2) -> (r: ())
        requires
            old(self).remainder.x + dv.x <= i64::MAX,
            old(self).remainder.x + dv.x >= i64::MIN,
            old(self).remainder.y + dv.y <= i64::MAX,
            old(self).remainder.y + dv.y >= i64::MIN,
        ensures
            final(self).remainder.x == old(self).remainder.x + dv.x,
            final(self).remainder.y == old(self).remainder.y + dv.y,
    {
        self.remainder = self.remainder.plus(dv);
    }
}

/// What [`Velocitized::impulse`] leaves in the velocity: the velocity moved
/// by `dv * dt`, then pulled back onto the circle of radius `terminal_vel`
/// if it left it.
pub open spec fn impulse_spec(vel: FxVec2, dv: FxVec2, terminal_vel: int, dt: int) -> (int, int) {
    if dv.x == 0 && dv.y == 0 {
        (vel.x as int, vel.y as int)
    } else {
        let tx: int = vel.x + fx::fx_mul_spec(dv.x as int, dt);
        let ty: int = vel.y + fx::fx_mul_spec(dv.y as int, dt);
        let sq: int = tx * tx + ty * ty;
        if sq >= terminal_vel * terminal_vel {
            if tx == 0 && ty == 0 {
                (0, 0)
            } else {
                let l: int = vec2::isqrt_spec(sq);
                (
                    fx::fx_mul_spec(fx::fx_div_spec(tx, l), terminal_vel),
                    fx::fx_mul_spec(fx::fx_div_spec(ty, l), terminal_vel),
                )
            }
        } else {
            (tx, ty)
        }
    }
}

/// Indicates this uses velocity-based movement.
#[derive(Clone, Copy, Debug, PartialEq, Eq, Structural)]
pub struct Velocitized {
    pub vel: FxVec2,
}

impl Velocitized {
    /// A velocity within the simulation's speed cap.
    pub open spec fn wf(self) -> bool {
        self.vel.bounded(VEL_LIM as int)
    }

    /// Wrap a velocity vector as a component.
    pub fn new(vel: FxVec2) -> (r: Velocitized)
        ensures
            r.vel == vel,
    {
        Velocitized { vel }
    }

    /// A body at rest.
    pub fn still() -> (r: Velocitized)
        ensures
            r.vel.x == 0,
            r.vel.y == 0,
            r.wf(),
    {
        Velocitized { vel: FxVec2 { x: 0, y: 0 } }
    }

    /// Nudge the velocity by the acceleration `dv` over one tick of length
    /// `dt`, capping the resulting speed at `terminal_vel`.
    pub fn impulse(&mut self, dv: FxVec2, terminal_vel: i64, dt: i64) -> (r: ())
        requires
            old(self).vel.bounded((vec2::VEC_LIM / 2) as int),
            dv.bounded(vec2::VEC_LIM as int),
            0 <= terminal_vel <= vec2::VEC_LIM,
            DT_MIN <= dt <= DT_MAX,
        ensures
            final(self).vel.x == impulse_spec(old(self).vel, dv, terminal_vel as int, dt as int).0,
            final(self).vel.y == impulse_spec(old(self).vel, dv, terminal_vel as int, dt as int).1,
    {
        if dv.x != 0 || dv.y != 0 {
            let delta: FxVec2 = dv.scaled(dt);
            proof {
                fx::lemma_mul_bound(dv.x as int, dt as int, vec2::VEC_LIM as int, DT_MAX as int);
                fx::lemma_mul_bound(dv.y as int, dt as int, vec2::VEC_LIM as int, DT_MAX as int);
            }
            let target: FxVec2 = self.vel.plus(delta);
            let sq: u64 = target.len_sq();
            proof {
                fx::lemma_mul_bound(
                    terminal_vel as int,
                    terminal_vel as int,
                    vec2::VEC_LIM as int,
                    vec2::VEC_LIM as int,
                );
                assert(terminal_vel * terminal_vel >= 0) by (nonlinear_arith);
            }
            let term_sq: u64 = ((terminal_vel as i64) * (terminal_vel as i64)) as u64;
            if sq >= term_sq {
                let unit: FxVec2 = target.normalize_or_zero();
                let capped: FxVec2 = unit.scaled(terminal_vel);
                self.vel = capped;
                proof {
                    let tx: int = old(self).vel.x + fx::fx_mul_spec(dv.x as int, dt as int);
                    let ty: int = old(self).vel.y + fx::fx_mul_spec(dv.y as int, dt as int);
                    let sqs: int = tx * tx + ty * ty;
                    assert(target.x == tx && target.y == ty);
                    assert(target.len_sq_spec() == sqs);
                    assert(sqs >= (terminal_vel as int) * (terminal_vel as int));
                    if tx == 0 && ty == 0 {
                        assert(unit.x == 0 && unit.y == 0);
                        assert(capped.x == fx::fx_mul_spec(0, terminal_vel as int));
                        assert(0 * (terminal_vel as int) == 0) by (nonlinear_arith);
                        fx::lemma_div_shrinks(0, SCALE as int);
                        assert(fx::fx_mul_spec(0, terminal_vel as int) == 0);
                    } else {
                        let l: int = vec2::isqrt_spec(sqs);
                        assert(unit.x == fx::fx_div_spec(tx, l));
                        assert(unit.y == fx::fx_div_spec(ty, l));
                        assert(capped.x == fx::fx_mul_spec(fx::fx_div_spec(tx, l), terminal_vel as int));
                    }
                    let spec_pair: (int, int) = impulse_spec(
                        old(self).vel,
                        dv,
                        terminal_vel as int,
                        dt as int,
                    );
                    assert(self.vel.x == spec_pair.0 && self.vel.y == spec_pair.1);
                }
            } else {
                self.vel = target;
                proof {
                    let spec_pair: (int, int) = impulse_spec(
                        old(self).vel,
                        dv,
                        terminal_vel as int,
                        dt as int,
                    );
                    assert(self.vel.x == spec_pair.0 && self.vel.y == spec_pair.1);
                }
            }
        }
    }
}

/// How long a touched direction stays remembered, in physics ticks.
pub const TOUCH_COUNTDOWN: u8 = 3;

/// Tracks the directions this is touching something in, as a countdown per
/// direction: nonzero means touched within the last few ticks.
#[derive(Clone, Copy, Debug, PartialEq, Eq, Structural)]
pub struct KinematicState {
    pub north: u8,
    pub north_east: u8,
    pub east: u8,
    pub south_east: u8,
    pub south: u8,
    pub south_west: u8,
    pub west: u8,
    pub north_west: u8,
}

/// One tick of decay applied to a single countdown.
pub open spec fn decay1(c: int) -> int {
    if c > 0 {
        c - 1
    } else {
        0
    }
}

/// A countdown after `k` ticks of decay.
pub open spec fn decay_n(c: int, k: nat) -> int
    decreases k,
{
    if k == 0 {
        c
    } else {
        decay1(decay_n(c, (k - 1) as nat))
    }
}

/// Decay clamps a countdown at zero: after `k` ticks it holds
/// `max(c - k, 0)`.
pub proof fn lemma_decay_n(c: int, k: nat)
    requires
        c >= 0,
    ensures
        decay_n(c, k) == if c - k >= 0 {
            c - k
        } else {
            0
        },
    decreases k,
{
    if k > 0 {
        lemma_decay_n(c, (k - 1) as nat);
    }
}

/// The kinematic-decay law: a freshly touched direction stays touched for
/// exactly [`TOUCH_COUNTDOWN`] further decay ticks and no longer.
pub proof fn lemma_kinematic_decay(k: nat)
    ensures
        k < TOUCH_COUNTDOWN ==> decay_n(TOUCH_COUNTDOWN as int, k) > 0,
        k >= TOUCH_COUNTDOWN ==> decay_n(TOUCH_COUNTDOWN as int, k) == 0,
{
    lemma_decay_n(TOUCH_COUNTDOWN as int, k);
}

/// The state after recording a touch in direction `d`.
pub open spec fn record_touch_spec(ks: KinematicState, d: Direction8) -> KinematicState {
    KinematicState {
        north: if d == Direction8::North { TOUCH_COUNTDOWN } else { ks.north },
        north_east: if d == Direction8::NorthEast { TOUCH_COUNTDOWN } else { ks.north_east },
        east: if d == Direction8::East { TOUCH_COUNTDOWN } else { ks.east },
        south_east: if d == Direction8::SouthEast { TOUCH_COUNTDOWN } else { ks.south_east },
        south: if d == Direction8::South { TOUCH_COUNTDOWN } else { ks.south },
        south_west: if d == Direction8::SouthWest { TOUCH_COUNTDOWN } else { ks.south_west },
        west: if d == Direction8::West { TOUCH_COUNTDOWN } else { ks.west },
        north_west: if d == Direction8::NorthWest { TOUCH_COUNTDOWN } else { ks.north_west },
    }
}

/// The state after one tick of decay on every direction.
pub open spec fn decay_spec(ks: KinematicState) -> KinematicState {
    KinematicState {
        north: decay1(ks.north as int) as u8,
        north_east: decay1(ks.north_east as int) as u8,
        east: decay1(ks.east as int) as u8,
        south_east: decay1(ks.south_east as int) as u8,
        south: decay1(ks.south as int) as u8,
        south_west: decay1(ks.south_west as int) as u8,
        west: decay1(ks.west as int) as u8,
        north_west: decay1(ks.north_west as int) as u8,
    }
}

/// Whether any direction with a horizontal component is touched.
pub open spec fn touching_any_horiz(ks: KinematicState) -> bool {
    ks.north_west > 0 || ks.west > 0 || ks.south_west > 0 || ks.north_east > 0 || ks.east > 0
        || ks.south_east > 0
}

/// Whether any direction with a vertical component is touched.
pub open spec fn touching_any_vert(ks: KinematicState) -> bool {
    ks.north_west > 0 || ks.north > 0 || ks.north_east > 0 || ks.south_west > 0 || ks.south > 0
        || ks.south_east > 0
}

impl KinematicState {
    /// The countdown stored for a direction.
    pub open spec fn countdown(self, d: Direction8) -> u8 {
        match d {
            Direction8::North => self.north,
            Direction8::NorthEast => self.north_east,
            Direction8::East => self.east,
            Direction8::SouthEast => self.south_east,
            Direction8::South => self.south,
            Direction8::SouthWest => self.south_west,
            Direction8::West => self.west,
            Direction8::NorthWest => self.north_west,
        }
    }

    /// A state with every countdown expired.
    pub fn new() -> (r: KinematicState)
        ensures
            forall|d: Direction8| r.countdown(d) == 0,
    {
        KinematicState {
            north: 0,
            north_east: 0,
            east: 0,
            south_east: 0,
            south: 0,
            south_west: 0,
            west: 0,
            north_west: 0,
        }
    }

    /// Whether the body touched something in the given direction within
    /// the last few ticks.
    pub fn touching(&self, direction: Direction8) -> (r: bool)
        ensures
            r == (self.countdown(direction) > 0),
    {
        let c: u8 = match direction {
            Direction8::North => self.north,
            Direction8::NorthEast => self.north_east,
            Direction8::East => self.east,
            Direction8::SouthEast => self.south_east,
            Direction8::South => self.south,
            Direction8::SouthWest => self.south_west,
            Direction8::West => self.west,
            Direction8::NorthWest => self.north_west,
        };
        c > 0
    }

    /// Whether the body touched something in any direction recently.
    pub fn touching_any(&self) -> (r: bool)
        ensures
            r == exists|d: Direction8| self.countdown(d) > 0,
    {
        let r: bool = self.north > 0 || self.north_east > 0 || self.east > 0 || self.south_east > 0
            || self.south > 0 || self.south_west > 0 || self.west > 0 || self.north_west > 0;
        proof {
            if self.north > 0 {
                assert(self.countdown(Direction8::North) > 0);
            }
            if self.north_east > 0 {
                assert(self.countdown(Direction8::NorthEast) > 0);
            }
            if self.east > 0 {
                assert(self.countdown(Direction8::East) > 0);
            }
            if self.south_east > 0 {
                assert(self.countdown(Direction8::SouthEast) > 0);
            }
            if self.south > 0 {
                assert(self.countdown(Direction8::South) > 0);
            }
            if self.south_west > 0 {
                assert(self.countdown(Direction8::SouthWest) > 0);
            }
            if self.west > 0 {
                assert(self.countdown(Direction8::West) > 0);
            }
            if self.north_west > 0 {
                assert(self.countdown(Direction8::NorthWest) > 0);
            }
        }
        r
    }

    /// Record a touch: the direction's countdown restarts at
    /// [`TOUCH_COUNTDOWN`]; every other direction keeps its countdown.
    pub fn record_touch(&mut self, direction: Direction8) -> (r: ())
        ensures
            *final(self) == record_touch_spec(*old(self), direction),
            final(self).countdown(direction) == TOUCH_COUNTDOWN,
            forall|d: Direction8|
                d != direction ==> final(self).countdown(d) == old(self).countdown(d),
    {
        match direction {
            Direction8::North => self.north = TOUCH_COUNTDOWN,
            Direction8::NorthEast => self.north_east = TOUCH_COUNTDOWN,
            Direction8::East => self.east = TOUCH_COUNTDOWN,
            Direction8::SouthEast => self.south_east = TOUCH_COUNTDOWN,
            Direction8::South => self.south = TOUCH_COUNTDOWN,
            Direction8::SouthWest => self.south_west = TOUCH_COUNTDOWN,
            Direction8::West => self.west = TOUCH_COUNTDOWN,
            Direction8::NorthWest => self.north_west = TOUCH_COUNTDOWN,
        }
    }

    /// One physics tick of decay: every countdown drops by one, floored
    /// at zero.
    pub fn decay(&mut self) -> (r: ())
        ensures
            *final(self) == decay_spec(*old(self)),
            forall|d: Direction8|
                final(self).countdown(d) == decay1(old(self).countdown(d) as int),
    {
        self.north = if self.north > 0 { self.north - 1 } else { 0 };
        self.north_east = if self.north_east > 0 { self.north_east - 1 } else { 0 };
        self.east = if self.east > 0 { self.east - 1 } else { 0 };
        self.south_east = if self.south_east > 0 { self.south_east - 1 } else { 0 };
        self.south = if self.south > 0 { self.south - 1 } else { 0 };
        self.south_west = if self.south_west > 0 { self.south_west - 1 } else { 0 };
        self.west = if self.west > 0 { self.west - 1 } else { 0 };
        self.north_west = if self.north_west > 0 { self.north_west - 1 } else { 0 };
    }
}

/// If this bonks against something, remove all velocity in that direction.
#[derive(Clone, Copy, Debug, PartialEq, Eq, Structural)]
pub struct Bonker;

/// Slows a body's velocity toward zero every physics tick.
#[derive(Clone, Copy, Debug, PartialEq, Eq, Structural)]
pub struct FrictionHaver {
    pub friction: i64,
}

/// What one tick of friction leaves of a velocity component: the component
/// scaled by `1 - friction * dt`, or zero when the coefficient dips below
/// zero.
pub open spec fn friction_spec(v: int, friction: int, dt: int) -> int {
    let coeff: int = (SCALE as int) - fx::fx_mul_spec(friction, dt);
    if coeff < 0 {
        0
    } else {
        fx::fx_mul_spec(v, coeff)
    }
}

impl FrictionHaver {
    /// A nonnegative friction coefficient within the stat cap.
    pub open spec fn wf(self) -> bool {
        0 <= self.friction <= vec2::VEC_LIM
    }

    /// Apply one tick of friction to a velocity.
    pub fn apply(&self, vel: &mut Velocitized, dt: i64) -> (r: ())
        requires
            self.wf(),
            old(vel).wf(),
            DT_MIN <= dt <= DT_MAX,
        ensures
            final(vel).vel.x == friction_spec(old(vel).vel.x as int, self.friction as int, dt as int),
            final(vel).vel.y == friction_spec(old(vel).vel.y as int, self.friction as int, dt as int),
            final(vel).wf(),
    {
        proof {
            fx::lemma_mul_bound(self.friction as int, dt as int, vec2::VEC_LIM as int, DT_MAX as int);
            fx::lemma_trunc_div_bound((self.friction as int) * (dt as int), SCALE as int);
        }
        let coeff: i64 = SCALE - fx::fx_mul(self.friction, dt);
        if coeff < 0 {
            vel.vel = FxVec2 { x: 0, y: 0 };
        } else {
            proof {
                fx::lemma_mul_bound(old(vel).vel.x as int, coeff as int, VEL_LIM as int, SCALE as int);
                fx::lemma_mul_bound(old(vel).vel.y as int, coeff as int, VEL_LIM as int, SCALE as int);
                fx::lemma_trunc_div_bound((old(vel).vel.x as int) * (coeff as int), SCALE as int);
                fx::lemma_trunc_div_bound((old(vel).vel.y as int) * (coeff as int), SCALE as int);
            }
            let nx: i64 = fx::fx_mul(vel.vel.x, coeff);
            let ny: i64 = fx::fx_mul(vel.vel.y, coeff);
            vel.vel = FxVec2 { x: nx, y: ny };
        }
    }
}

/// Marker component for things that should block movement.
#[derive(Clone, Copy, Debug, PartialEq, Eq, Structural)]
pub struct Collider;

/// Marker component for things that you can swing on.
#[derive(Clone, Copy, Debug, PartialEq, Eq, Structural)]
pub struct SwingableOn;

/// Keeps track of its age in ticks.
#[derive(Clone, Copy, Debug, PartialEq, Eq, Structural)]
pub struct AgeTracker {
    pub age: u64,
}

impl AgeTracker {
    /// One tick of aging; the count saturates at its maximum.
    pub fn step(&mut self) -> (r: ())
        ensures
            final(self).age == if old(self).age < u64::MAX {
                old(self).age + 1
            } else {
                old(self).age as int
            },
    {
        if self.age < u64::MAX {
            self.age = self.age + 1;
        }
    }
}

/// Despawns after the given number of frames.
#[derive(Clone, Copy, Debug, PartialEq, Eq, Structural)]
pub struct LimitedTimeOffer {
    pub time_remaining: u32,
}

} // verus!
