//! Logical (device independent) points and rectangles, and the containment
//! test that hit-testing is built on.

use vstd::prelude::*;

verus! {

/// A point in logical coordinates.
#[derive(Clone, Copy, PartialEq, Eq, Structural, Debug)]
pub struct LogicalPoint {
    pub x: i32,
    pub y: i32,
}

/// An axis-aligned rectangle in logical coordinates: origin plus size.
#[derive(Clone, Copy, PartialEq, Eq, Structural, Debug)]
pub struct LogicalRect {
    pub x: i32,
    pub y: i32,
    pub width: i32,
    pub height: i32,
}

impl LogicalRect {
    /// A rectangle is well formed when its size is not negative.
    pub open spec fn wf(self) -> bool {
        self.width >= 0 && self.height >= 0
    }

    /// Half-open containment: the left and top edges belong to the
    /// rectangle, the right and bottom edges do not.
    pub open spec fn spec_contains(self, p: LogicalPoint) -> bool {
        &&& p.x >= self.x
        &&& p.y >= self.y
        &&& (p.x as int) < self.x + self.width
        &&& (p.y as int) < self.y + self.height
    }

    /// Is `p` inside this rectangle?
    pub fn contains(&self, p: LogicalPoint) -> (r: bool)
        ensures
            r == self.spec_contains(p),
    {
        p.x >= self.x && p.y >= self.y && (p.x as i64) < (self.x as i64) + (self.width as i64)
            && (p.y as i64) < (self.y as i64) + (self.height as i64)
    }
}

} // verus!
