//! Where the world is viewed from: an eased follow camera clamped to a
//! bounding box.

use vstd::prelude::*;
use crate::fx;
use crate::phys::IVec2;

verus! {

/// The game viewport width in pixels.
pub const GAME_WIDTH: i32 = 320;

/// The game viewport height in pixels.
pub const GAME_HEIGHT: i32 = 180;

/// How much of the camera-to-player gap survives each update (one part
/// in this many).
pub const EASING_AMOUNT: i32 = 4;

/// One axis of the camera update: ease a quarter of the way is kept, then
/// clamp so the viewport stays inside the bounding box.
pub open spec fn camera_axis_spec(
    current: int,
    player: int,
    corner: int,
    size: int,
    window: int,
) -> int {
    let delta: int = current - player;
    let ideal: int = player + fx::trunc_div(delta, EASING_AMOUNT as int);
    fx::clamp_spec(ideal, corner + window / 2, corner + size - window / 2)
}

/// Where the world is viewed from.
pub struct Camera {
    current: IVec2,
    bb_corner: IVec2,
    bb_size: IVec2,
}

impl Camera {
    /// Coordinates small enough for the easing arithmetic, and a bounding
    /// box at least a viewport large.
    pub closed spec fn wf(self) -> bool {
        &&& -0x0400_0000 <= self.current.x <= 0x0400_0000
        &&& -0x0400_0000 <= self.current.y <= 0x0400_0000
        &&& -0x0100_0000 <= self.bb_corner.x <= 0x0100_0000
        &&& -0x0100_0000 <= self.bb_corner.y <= 0x0100_0000
        &&& GAME_WIDTH <= self.bb_size.x <= 0x0100_0000
        &&& GAME_HEIGHT <= self.bb_size.y <= 0x0100_0000
    }

    /// The stored center.
    pub closed spec fn center_spec(self) -> IVec2 {
        self.current
    }

    /// The stored bounding box corner and size.
    pub closed spec fn bounds_spec(self) -> (IVec2, IVec2) {
        (self.bb_corner, self.bb_size)
    }

    /// A camera at the origin watching a tall default column of world.
    pub fn new() -> (r: Camera)
        ensures
            r.wf(),
            r.center_spec() == (IVec2 { x: 0, y: 0 }),
    {
        Camera {
            current: IVec2 { x: 0, y: 0 },
            bb_corner: IVec2 { x: -160, y: -10000 },
            bb_size: IVec2 { x: 320, y: 20000 },
        }
    }

    /// Ease toward the player and clamp into the bounding box, axis by
    /// axis.
    pub fn update(&mut self, player_pos: IVec2) -> (r: ())
        requires
            old(self).wf(),
            -crate::phys::POS_LIM <= player_pos.x <= crate::phys::POS_LIM,
            -crate::phys::POS_LIM <= player_pos.y <= crate::phys::POS_LIM,
        ensures
            final(self).center_spec().x == camera_axis_spec(
                old(self).center_spec().x as int,
                player_pos.x as int,
                old(self).bounds_spec().0.x as int,
                old(self).bounds_spec().1.x as int,
                GAME_WIDTH as int,
            ),
            final(self).center_spec().y == camera_axis_spec(
                old(self).center_spec().y as int,
                player_pos.y as int,
                old(self).bounds_spec().0.y as int,
                old(self).bounds_spec().1.y as int,
                GAME_HEIGHT as int,
            ),
            final(self).bounds_spec() == old(self).bounds_spec(),
            final(self).wf(),
    {
        let dx: i32 = self.current.x - player_pos.x;
        let ix: i32 = player_pos.x + dx / EASING_AMOUNT;
        proof {
            fx::lemma_div_shrinks(if dx >= 0 { dx as int } else { -dx as int }, EASING_AMOUNT as int);
        }
        let lo_x: i32 = self.bb_corner.x + GAME_WIDTH / 2;
        let hi_x: i32 = self.bb_corner.x + self.bb_size.x - GAME_WIDTH / 2;
        let nx: i32 = if ix < lo_x {
            lo_x
        } else if ix > hi_x {
            hi_x
        } else {
            ix
        };
        let dy: i32 = self.current.y - player_pos.y;
        let iy: i32 = player_pos.y + dy / EASING_AMOUNT;
        proof {
            fx::lemma_div_shrinks(if dy >= 0 { dy as int } else { -dy as int }, EASING_AMOUNT as int);
        }
        let lo_y: i32 = self.bb_corner.y + GAME_HEIGHT / 2;
        let hi_y: i32 = self.bb_corner.y + self.bb_size.y - GAME_HEIGHT / 2;
        let ny: i32 = if iy < lo_y {
            lo_y
        } else if iy > hi_y {
            hi_y
        } else {
            iy
        };
        self.current = IVec2 { x: nx, y: ny };
    }

    /// The camera's center.
    pub fn center(&self) -> (r: IVec2)
        ensures
            r == self.center_spec(),
    {
        self.current
    }
}

} // verus!
