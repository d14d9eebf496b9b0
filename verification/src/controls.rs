//! The per-tick control vector the simulation consumes. Reading input
//! devices is a collaborator's job; the core only takes the already
//! computed values.

use vstd::prelude::*;
use crate::fx::SCALE;
use crate::vec2::FxVec2;

verus! {

/// One tick's worth of player intent: a movement vector of length at most
/// one, and the jump, swing and reset buttons.
#[derive(Clone, Copy, Debug, PartialEq, Eq, Structural)]
pub struct ControlState {
    pub movement: FxVec2,
    pub jump: bool,
    pub swing: bool,
    pub reset: bool,
}

impl ControlState {
    /// A movement vector within twice the unit scale, as normalization
    /// leaves it.
    pub open spec fn wf(self) -> bool {
        self.movement.bounded(2 * SCALE as int)
    }

    /// A tick with no input at all.
    pub fn neutral() -> (r: ControlState)
        ensures
            r.movement.x == 0,
            r.movement.y == 0,
            !r.jump,
            !r.swing,
            !r.reset,
            r.wf(),
    {
        ControlState { movement: FxVec2 { x: 0, y: 0 }, jump: false, swing: false, reset: false }
    }

    /// Combine two input sources: movement vectors add and renormalize,
    /// buttons combine with "or".
    pub fn merge(&self, other: &Self) -> (r: Self)
        requires
            self.wf(),
            other.wf(),
        ensures
            ({
                let sum = FxVec2 {
                    x: (self.movement.x + other.movement.x) as i64,
                    y: (self.movement.y + other.movement.y) as i64,
                };
                &&& (sum.x == 0 && sum.y == 0 ==> r.movement.x == 0 && r.movement.y == 0)
                &&& (!(sum.x == 0 && sum.y == 0) ==> r.movement.x == crate::fx::fx_div_spec(
                    sum.x as int,
                    sum.len_spec(),
                ) && r.movement.y == crate::fx::fx_div_spec(sum.y as int, sum.len_spec()))
            }),
            r.jump == (self.jump || other.jump),
            r.swing == (self.swing || other.swing),
            r.reset == (self.reset || other.reset),
            r.wf(),
    {
        let sum: FxVec2 = self.movement.plus(other.movement);
        let movement: FxVec2 = sum.normalize_or_zero();
        ControlState {
            movement,
            jump: self.jump || other.jump,
            swing: self.swing || other.swing,
            reset: self.reset || other.reset,
        }
    }
}

} // verus!
