use vstd::prelude::*;

verus! {

/// A point, or an extent, of the horizontal plane of the world, in whole
/// blocks.
#[derive(Clone, Copy, Debug, PartialEq, Eq, Structural)]
pub struct Vector2 {
    pub x: i64,
    pub y: i64,
}

impl Vector2 {
    pub fn new(x: i64, y: i64) -> (v: Self)
        ensures
            v == (Vector2 { x, y }),
    {
        Self { x, y }
    }
}

/// A rectangle of columns of the world: the columns `(origin.x + i,
/// origin.y + j)` with `i` below `size.x` and `j` below `size.y`.
#[derive(Clone, Copy, Debug, PartialEq, Eq, Structural)]
pub struct Rect {
    pub origin: Vector2,
    pub size: Vector2,
}

impl Rect {
    /// The rectangle has an extent, and each of its columns has a world
    /// position.
    pub open spec fn wf(&self) -> bool {
        &&& 0 <= self.size.x
        &&& 0 <= self.size.y
        &&& self.origin.x + self.size.x <= i64::MAX + 1
        &&& self.origin.y + self.size.y <= i64::MAX + 1
    }

    /// The number of columns in the rectangle.
    pub open spec fn spec_area(&self) -> int {
        self.size.x * self.size.y
    }

    pub fn new(origin: Vector2, width: i64, height: i64) -> (rect: Self)
        ensures
            rect == (Rect { origin, size: Vector2 { x: width, y: height } }),
    {
        Self { origin, size: Vector2 { x: width, y: height } }
    }
}

} // verus!
