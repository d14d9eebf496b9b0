//! Integer rectangle geometry and the eight compass directions.

use vstd::prelude::*;
use crate::fx;

verus! {

/// Largest magnitude a hitbox coordinate may take.
pub const COORD_LIM: i32 = 0x2000_0000;

/// Largest width or height a hitbox may have.
pub const DIM_LIM: i32 = 0x0001_0000;

/// An axis-aligned rectangle, stored by its edges: the pixels covered are
/// `[x1, x2)` horizontally and `[y1, y2)` vertically.
#[derive(Clone, Copy, Debug, PartialEq, Eq, Structural)]
pub struct Hitbox {
    pub x1: i32,
    pub x2: i32,
    pub y1: i32,
    pub y2: i32,
}

/// Whether two boxes overlap on a region of positive area. Boxes that only
/// touch along an edge do not overlap; a resting body can slide along a
/// floor it touches.
pub open spec fn boxes_overlap(a: Hitbox, b: Hitbox) -> bool {
    &&& a.x1 < b.x2
    &&& b.x1 < a.x2
    &&& a.y1 < b.y2
    &&& b.y1 < a.y2
}

impl Hitbox {
    /// Edges ordered and coordinates small enough for safe arithmetic.
    pub open spec fn wf(self) -> bool {
        &&& self.x1 <= self.x2
        &&& self.y1 <= self.y2
        &&& -COORD_LIM <= self.x1
        &&& self.x2 <= COORD_LIM
        &&& -COORD_LIM <= self.y1
        &&& self.y2 <= COORD_LIM
    }

    /// The box of width `w` and height `h` centered on `(x, y)`; for odd
    /// sizes the extra pixel falls on the right/bottom side.
    pub open spec fn new_spec(x: int, y: int, w: int, h: int) -> Hitbox {
        let left: int = x - fx::trunc_div(w, 2);
        let top: int = y - fx::trunc_div(h, 2);
        Hitbox {
            x1: left as i32,
            x2: (left + w) as i32,
            y1: top as i32,
            y2: (top + h) as i32,
        }
    }

    /// Create a new hitbox centered on the given point.
    pub fn new(x: i32, y: i32, w: i32, h: i32) -> (r: Hitbox)
        requires
            -COORD_LIM / 2 < x < COORD_LIM / 2,
            -COORD_LIM / 2 < y < COORD_LIM / 2,
            0 <= w <= DIM_LIM,
            0 <= h <= DIM_LIM,
        ensures
            r == Self::new_spec(x as int, y as int, w as int, h as int),
            r.wf(),
            r.x2 - r.x1 == w,
            r.y2 - r.y1 == h,
    {
        proof {
            fx::lemma_div_shrinks(w as int, 2);
            fx::lemma_div_shrinks(h as int, 2);
        }
        let left: i32 = x - w / 2;
        let top: i32 = y - h / 2;
        Hitbox { x1: left, x2: left + w, y1: top, y2: top + h }
    }

    /// Left edge.
    pub fn x(&self) -> (r: i32)
        ensures
            r == self.x1,
    {
        self.x1
    }

    /// Top edge.
    pub fn y(&self) -> (r: i32)
        ensures
            r == self.y1,
    {
        self.y1
    }

    /// Width.
    pub fn w(&self) -> (r: i32)
        requires
            self.wf(),
        ensures
            r == self.x2 - self.x1,
    {
        self.x2 - self.x1
    }

    /// Height.
    pub fn h(&self) -> (r: i32)
        requires
            self.wf(),
        ensures
            r == self.y2 - self.y1,
    {
        self.y2 - self.y1
    }

    /// The top-left corner.
    pub fn top_left(&self) -> (r: (i32, i32))
        ensures
            r.0 == self.x1,
            r.1 == self.y1,
    {
        (self.x1, self.y1)
    }

    /// The center point (for odd sizes, rounded toward the top-left).
    pub fn center(&self) -> (r: (i32, i32))
        requires
            self.wf(),
        ensures
            r.0 == self.x1 + (self.x2 - self.x1) / 2,
            r.1 == self.y1 + (self.y2 - self.y1) / 2,
    {
        proof {
            fx::lemma_div_shrinks((self.x2 - self.x1) as int, 2);
            fx::lemma_div_shrinks((self.y2 - self.y1) as int, 2);
        }
        (self.x1 + (self.x2 - self.x1) / 2, self.y1 + (self.y2 - self.y1) / 2)
    }

    /// The same size of box, re-centered on the top-left corner displaced
    /// by `(dx, dy)`.
    pub fn shifted_by(&self, dx: i32, dy: i32) -> (r: Hitbox)
        requires
            self.wf(),
            -COORD_LIM / 2 < self.x1 + dx < COORD_LIM / 2,
            -COORD_LIM / 2 < self.y1 + dy < COORD_LIM / 2,
            self.x2 - self.x1 <= DIM_LIM,
            self.y2 - self.y1 <= DIM_LIM,
        ensures
            r == Self::new_spec(
                self.x1 + dx,
                self.y1 + dy,
                self.x2 - self.x1,
                self.y2 - self.y1,
            ),
            r.wf(),
    {
        Hitbox::new(self.x1 + dx, self.y1 + dy, self.x2 - self.x1, self.y2 - self.y1)
    }

    /// Whether this box and `other` overlap on positive area.
    pub fn overlaps(&self, other: &Hitbox) -> (r: bool)
        ensures
            r == boxes_overlap(*self, *other),
    {
        self.x1 < other.x2 && other.x1 < self.x2 && self.y1 < other.y2 && other.y1 < self.y2
    }
}

/// The eight compass directions. The vertical axis points down the screen,
/// so `South` is the direction of the floor.
#[derive(Clone, Copy, Debug, PartialEq, Eq, Structural)]
pub enum Direction8 {
    North,
    NorthEast,
    East,
    SouthEast,
    South,
    SouthWest,
    West,
    NorthWest,
}

} // verus!
