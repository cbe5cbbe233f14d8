use crate::world::geometry::Vector2;
use crate::world::world_coordinate::WorldCoordinate;
use vstd::prelude::*;

verus! {

/// The place of a chunk in the grid of chunk columns.
#[derive(PartialEq, Eq, Hash, Copy, Clone, Debug, Structural)]
pub struct ChunkGridCoordinate {
    pub x: i64,
    pub z: i64,
}

/// The distance between two integers.
pub open spec fn spec_distance(a: int, b: int) -> int {
    if a >= b {
        a - b
    } else {
        b - a
    }
}

impl Default for ChunkGridCoordinate {
    fn default() -> (origin: Self)
        ensures
            origin == (ChunkGridCoordinate { x: 0, z: 0 }),
    {
        Self { x: 0, z: 0 }
    }
}

impl ChunkGridCoordinate {
    /// The chunk that holds the world position `position`: each horizontal
    /// axis divided by the chunk's extent and rounded down.
    pub open spec fn spec_from_world_coordinate(position: WorldCoordinate) -> ChunkGridCoordinate {
        ChunkGridCoordinate { x: (position.x / 16) as i64, z: (position.z / 16) as i64 }
    }

    /// Whether every block of the chunk has a world position.
    pub open spec fn in_world(&self) -> bool {
        &&& i64::MIN <= 16 * self.x
        &&& 16 * self.x + 15 <= i64::MAX
        &&& i64::MIN <= 16 * self.z
        &&& 16 * self.z + 15 <= i64::MAX
    }

    /// The world position of the chunk's corner of least x and z.
    pub open spec fn spec_abs(&self) -> Vector2 {
        Vector2 { x: (16 * self.x) as i64, y: (16 * self.z) as i64 }
    }

    /// The number of steps along the axes from `self` to `other`.
    pub open spec fn spec_manhattan_distance(&self, other: ChunkGridCoordinate) -> int {
        spec_distance(self.x as int, other.x as int) + spec_distance(self.z as int, other.z as int)
    }

    /// Whether one step along one axis leads from `left` to `right`.
    pub open spec fn spec_are_neighbours(
        left: ChunkGridCoordinate,
        right: ChunkGridCoordinate,
    ) -> bool {
        ||| spec_distance(left.x as int, right.x as int) == 1 && left.z == right.z
        ||| left.x == right.x && spec_distance(left.z as int, right.z as int) == 1
    }

    pub fn new(x: i64, z: i64) -> (coords: Self)
        ensures
            coords == (ChunkGridCoordinate { x, z }),
    {
        Self { x, z }
    }

    /// The chunk that holds `position`. The height of the position plays no
    /// part: a chunk spans the whole height of the world.
    pub fn from_world_coordinate(position: WorldCoordinate) -> (coords: Self)
        ensures
            coords == Self::spec_from_world_coordinate(position),
            coords.x == position.x as int / 16,
            coords.z == position.z as int / 16,
            coords.in_world(),
    {
        Self { x: floor_div_16(position.x), z: floor_div_16(position.z) }
    }

    /// Whether every block of the chunk has a world position.
    pub fn is_in_world(&self) -> (inside: bool)
        ensures
            inside == self.in_world(),
    {
        let low: i64 = -0x0800_0000_0000_0000;
        let high: i64 = 0x07ff_ffff_ffff_ffff;
        low <= self.x && self.x <= high && low <= self.z && self.z <= high
    }

    /// The world position of the chunk's corner of least x and z.
    pub fn abs(&self) -> (origin: Vector2)
        requires
            self.in_world(),
        ensures
            origin == self.spec_abs(),
            origin.x == 16 * self.x,
            origin.y == 16 * self.z,
    {
        Vector2 { x: 16 * self.x, y: 16 * self.z }
    }

    /// The number of steps along the axes from `self` to `other`, or `None`
    /// where that number does not fit a `usize`.
    pub fn manhattan_distance(&self, other: ChunkGridCoordinate) -> (distance: Option<usize>)
        ensures
            match distance {
                Some(d) => d == self.spec_manhattan_distance(other),
                None => self.spec_manhattan_distance(other) > usize::MAX,
            },
    {
        let dx: u64 = distance(self.x, other.x);
        let dz: u64 = distance(self.z, other.z);
        let sum: u128 = dx as u128 + dz as u128;
        if sum <= usize::MAX as u128 {
            Some(sum as usize)
        } else {
            None
        }
    }

    /// The chunk one step along the z axis.
    pub fn north(&self) -> (coords: ChunkGridCoordinate)
        requires
            self.z < i64::MAX,
        ensures
            coords == (ChunkGridCoordinate { x: self.x, z: (self.z + 1) as i64 }),
    {
        ChunkGridCoordinate::new(self.x, self.z + 1)
    }

    /// The chunk one step against the z axis.
    pub fn south(&self) -> (coords: ChunkGridCoordinate)
        requires
            self.z > i64::MIN,
        ensures
            coords == (ChunkGridCoordinate { x: self.x, z: (self.z - 1) as i64 }),
    {
        ChunkGridCoordinate::new(self.x, self.z - 1)
    }

    /// The chunk one step against the x axis.
    pub fn east(&self) -> (coords: ChunkGridCoordinate)
        requires
            self.x > i64::MIN,
        ensures
            coords == (ChunkGridCoordinate { x: (self.x - 1) as i64, z: self.z }),
    {
        ChunkGridCoordinate::new(self.x - 1, self.z)
    }

    /// The chunk one step along the x axis.
    pub fn west(&self) -> (coords: ChunkGridCoordinate)
        requires
            self.x < i64::MAX,
        ensures
            coords == (ChunkGridCoordinate { x: (self.x + 1) as i64, z: self.z }),
    {
        ChunkGridCoordinate::new(self.x + 1, self.z)
    }

    /// Whether one step along one axis leads from `left` to `right`.
    pub fn are_neighbours(left: &ChunkGridCoordinate, right: &ChunkGridCoordinate) -> (adjacent:
        bool)
        ensures
            adjacent == Self::spec_are_neighbours(*left, *right),
    {
        (distance(left.x, right.x) == 1 && left.z == right.z) || (left.x == right.x && distance(
            left.z,
            right.z,
        ) == 1)
    }

    /// Neighbourhood does not depend on the order of the two chunks.
    pub proof fn lemma_neighbours_symmetric(a: ChunkGridCoordinate, b: ChunkGridCoordinate)
        ensures
            Self::spec_are_neighbours(a, b) == Self::spec_are_neighbours(b, a),
    {
    }

    /// Two chunks are neighbours exactly when one axis differs by one and
    /// the other does not differ, which is to say that they are one step
    /// apart.
    pub proof fn lemma_neighbours_one_step(a: ChunkGridCoordinate, b: ChunkGridCoordinate)
        ensures
            Self::spec_are_neighbours(a, b) <==> a.spec_manhattan_distance(b) == 1,
            Self::spec_are_neighbours(a, b) <==> {
                ||| (a.x - b.x == 1 || b.x - a.x == 1) && a.z - b.z == 0
                ||| a.x - b.x == 0 && (a.z - b.z == 1 || b.z - a.z == 1)
            },
    {
    }

    /// The world position of a chunk's corner lies in that chunk, whatever
    /// its height.
    pub proof fn lemma_origin_maps_back(coords: ChunkGridCoordinate, y: i64)
        requires
            coords.in_world(),
        ensures
            Self::spec_from_world_coordinate(
                WorldCoordinate { x: coords.spec_abs().x, y, z: coords.spec_abs().y },
            ) == coords,
    {
    }

    /// A world position lies in the chunk `coords` exactly when it is one of
    /// the sixteen by sixteen columns that start at the chunk's corner.
    pub proof fn lemma_footprint(coords: ChunkGridCoordinate, position: WorldCoordinate)
        requires
            coords.in_world(),
        ensures
            Self::spec_from_world_coordinate(position) == coords <==> {
                &&& 16 * coords.x <= position.x < 16 * coords.x + 16
                &&& 16 * coords.z <= position.z < 16 * coords.z + 16
            },
    {
    }
}

/// The distance between two integers.
fn distance(a: i64, b: i64) -> (d: u64)
    ensures
        d == spec_distance(a as int, b as int),
{
    if a >= b {
        (a as i128 - b as i128) as u64
    } else {
        (b as i128 - a as i128) as u64
    }
}

/// `value` divided by sixteen, rounded down.
fn floor_div_16(value: i64) -> (quotient: i64)
    ensures
        quotient == value as int / 16,
{
    if value >= 0 {
        value / 16
    } else {
        -((-(value + 1)) / 16) - 1
    }
}

} // verus!
