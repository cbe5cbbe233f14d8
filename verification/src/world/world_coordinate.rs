use vstd::prelude::*;

verus! {

/// A position in world space, in whole blocks.
#[derive(Clone, Copy, Debug, PartialEq, Eq, Structural)]
pub struct WorldCoordinate {
    pub x: i64,
    pub y: i64,
    pub z: i64,
}

impl WorldCoordinate {
    pub fn new(x: i64, y: i64, z: i64) -> (position: Self)
        ensures
            position == (WorldCoordinate { x, y, z }),
    {
        Self { x, y, z }
    }
}

} // verus!
