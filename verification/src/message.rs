//! The messages the tick orchestrator passes around: the per-tick pulses
//! and the two directions of a contact notification.

use vstd::prelude::*;
use crate::geom::Direction8;
use crate::phys::IVec2;
use crate::world::Entity;

verus! {

/// The once-per-frame pulse for bookkeeping (aging, despawn timers).
#[derive(Clone, Copy, Debug)]
pub struct MsgTick;

/// The fixed-timestep physics pulse; `dt` is the tick length in
/// fixed-point seconds.
#[derive(Clone, Copy, Debug, PartialEq, Eq, Structural)]
pub struct MsgPhysicsTick {
    dt: i64,
}

impl MsgPhysicsTick {
    /// Wrap a tick length.
    pub fn new(dt: i64) -> (r: MsgPhysicsTick)
        ensures
            r.dt_spec() == dt,
    {
        MsgPhysicsTick { dt }
    }

    /// The stored tick length.
    pub closed spec fn dt_spec(self) -> i64 {
        self.dt
    }

    /// The tick length in fixed-point seconds.
    pub fn dt(&self) -> (r: i64)
        ensures
            r == self.dt_spec(),
    {
        self.dt
    }
}

/// What a drawing listener needs to know about a body.
#[derive(Clone, Copy, Debug)]
pub struct MsgDraw {
    pub pos: Option<IVec2>,
    pub dims: Option<(i32, i32)>,
}

/// Sent to a blocking body when a mover runs into it. The normal is the
/// direction the hit comes from: it points from `bonker` toward the body
/// getting this message.
#[derive(Clone, Copy, Debug, PartialEq, Eq, Structural)]
pub struct MsgRecvHit {
    bonker: Entity,
    normal: Direction8,
}

impl MsgRecvHit {
    /// Pair the hitting body with the contact direction.
    pub fn new(bonker: Entity, normal: Direction8) -> (r: MsgRecvHit)
        ensures
            r.bonker_spec() == bonker,
            r.normal_spec() == normal,
    {
        MsgRecvHit { bonker, normal }
    }

    /// The stored hitting body.
    pub closed spec fn bonker_spec(self) -> Entity {
        self.bonker
    }

    /// The stored contact direction.
    pub closed spec fn normal_spec(self) -> Direction8 {
        self.normal
    }

    /// The body doing the hitting.
    pub fn bonker(&self) -> (r: Entity)
        ensures
            r == self.bonker_spec(),
    {
        self.bonker
    }

    /// The contact direction; contacts can be orthogonal or cornered,
    /// hence all eight directions.
    pub fn normal(&self) -> (r: Direction8)
        ensures
            r == self.normal_spec(),
    {
        self.normal
    }
}

/// Sent to a mover when it hits a blocking body. The normal is the
/// direction it is hitting in: it points from the body getting this
/// message toward `bonkee`.
#[derive(Clone, Copy, Debug, PartialEq, Eq, Structural)]
pub struct MsgSendHit {
    bonkee: Entity,
    normal: Direction8,
}

impl MsgSendHit {
    /// Pair the blocked body with the contact direction.
    pub fn new(bonkee: Entity, normal: Direction8) -> (r: MsgSendHit)
        ensures
            r.bonkee_spec() == bonkee,
            r.normal_spec() == normal,
    {
        MsgSendHit { bonkee, normal }
    }

    /// The stored blocked body.
    pub closed spec fn bonkee_spec(self) -> Entity {
        self.bonkee
    }

    /// The stored contact direction.
    pub closed spec fn normal_spec(self) -> Direction8 {
        self.normal
    }

    /// The body that was run into.
    pub fn bonkee(&self) -> (r: Entity)
        ensures
            r == self.bonkee_spec(),
    {
        self.bonkee
    }

    /// The contact direction.
    pub fn normal(&self) -> (r: Direction8)
        ensures
            r == self.normal_spec(),
    {
        self.normal
    }
}

} // verus!
