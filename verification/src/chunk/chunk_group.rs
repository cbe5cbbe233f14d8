use crate::block::Block;
use crate::chunk::chunk::Chunk;
use vstd::prelude::*;

verus! {

/// A chunk joined with its four lateral neighbours, for queries that cross
/// the chunk's border.
pub struct ChunkGroup {
    pub current: Chunk,
    pub north: Chunk,
    pub south: Chunk,
    pub east: Chunk,
    pub west: Chunk,
}

impl ChunkGroup {
    /// Each of the five chunks is well formed.
    pub open spec fn wf(&self) -> bool {
        &&& self.current.wf()
        &&& self.north.wf()
        &&& self.south.wf()
        &&& self.east.wf()
        &&& self.west.wf()
    }

    /// The block at `(x, y, z)`, counted from the corner of the middle
    /// chunk. A coordinate that leaves the middle chunk along one horizontal
    /// axis, by less than a chunk, is looked up in the neighbour on that
    /// side: towards lesser x in the east chunk, towards greater x in the
    /// west chunk, towards lesser z in the south chunk, towards greater z in
    /// the north chunk. There is no block above or below the chunks, nor
    /// past a corner.
    pub open spec fn spec_get_block(&self, x: int, y: int, z: int) -> Option<Block> {
        if !(0 <= y < 256) {
            None
        } else if 0 <= x < 16 && 0 <= z < 16 {
            Some(self.current.spec_block(x, y, z))
        } else if -16 <= x < 0 && 0 <= z < 16 {
            Some(self.east.spec_block(x + 16, y, z))
        } else if 16 <= x < 32 && 0 <= z < 16 {
            Some(self.west.spec_block(x - 16, y, z))
        } else if 0 <= x < 16 && -16 <= z < 0 {
            Some(self.south.spec_block(x, y, z + 16))
        } else if 0 <= x < 16 && 16 <= z < 32 {
            Some(self.north.spec_block(x, y, z - 16))
        } else {
            None
        }
    }

    pub fn new(current: Chunk, north: Chunk, south: Chunk, east: Chunk, west: Chunk) -> (group:
        Self)
        ensures
            group.current == current,
            group.north == north,
            group.south == south,
            group.east == east,
            group.west == west,
    {
        Self { current, north, south, east, west }
    }

    /// Looks up the block at `(x, y, z)`, counted from the corner of the
    /// middle chunk.
    pub fn get_block(&self, x: i8, y: i16, z: i8) -> (block: Option<Block>)
        requires
            self.wf(),
        ensures
            block == self.spec_get_block(x as int, y as int, z as int),
    {
        if y < 0 || y >= 256 {
            return None;
        }
        let y = y as usize;
        let inside_x = 0 <= x && x < 16;
        let inside_z = 0 <= z && z < 16;
        if inside_x && inside_z {
            Some(self.current.block(x as usize, y, z as usize))
        } else if -16 <= x && x < 0 && inside_z {
            Some(self.east.block((x + 16) as usize, y, z as usize))
        } else if 16 <= x && x < 32 && inside_z {
            Some(self.west.block((x - 16) as usize, y, z as usize))
        } else if inside_x && -16 <= z && z < 0 {
            Some(self.south.block(x as usize, y, (z + 16) as usize))
        } else if inside_x && 16 <= z && z < 32 {
            Some(self.north.block(x as usize, y, (z - 16) as usize))
        } else {
            None
        }
    }
}

} // verus!
