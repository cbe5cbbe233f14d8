use crate::block::Block;
use crate::chunk::chunk_grid::ChunkGridCoordinate;
use vstd::prelude::*;

verus! {

/// Number of blocks along the x axis of a chunk.
pub const CHUNK_WIDTH: usize = 16;

/// Number of blocks along the z axis of a chunk.
pub const CHUNK_DEPTH: usize = 16;

/// Number of blocks along the y axis of a chunk.
pub const CHUNK_HEIGHT: usize = 256;

/// Number of blocks in a chunk.
pub const CHUNK_SIZE: usize = 65536;

/// The identifier of the block that fills a fresh chunk.
pub const AIR: u8 = 0;

/// Whether `(x, y, z)` names a block inside a chunk.
pub open spec fn in_chunk(x: int, y: int, z: int) -> bool {
    0 <= x < 16 && 0 <= y < 256 && 0 <= z < 16
}

/// Position of the block `(x, y, z)` in the flat block array.
pub open spec fn flat_index(x: int, y: int, z: int) -> int {
    x * 16 + y * 256 + z
}

/// The x of the block at position `index` of the flat block array.
pub open spec fn spec_local_x(index: int) -> int {
    (index % 256) / 16
}

/// The y of the block at position `index` of the flat block array.
pub open spec fn spec_local_y(index: int) -> int {
    index / 256
}

/// The z of the block at position `index` of the flat block array.
pub open spec fn spec_local_z(index: int) -> int {
    index % 16
}

/// Computes the flat array index of a local block coordinate.
pub fn at(x: usize, y: usize, z: usize) -> (i: usize)
    requires
        in_chunk(x as int, y as int, z as int),
    ensures
        i == flat_index(x as int, y as int, z as int),
        i < CHUNK_SIZE,
{
    (x * CHUNK_WIDTH) + (y * CHUNK_HEIGHT) + z
}

/// Inside a chunk the flat index stays within the block array.
pub proof fn lemma_flat_index_in_range(x: int, y: int, z: int)
    requires
        in_chunk(x, y, z),
    ensures
        0 <= flat_index(x, y, z) < CHUNK_SIZE,
{
}

/// Inside a chunk two coordinates share a flat index only if they are equal.
pub proof fn lemma_flat_index_injective(x1: int, y1: int, z1: int, x2: int, y2: int, z2: int)
    requires
        in_chunk(x1, y1, z1),
        in_chunk(x2, y2, z2),
        flat_index(x1, y1, z1) == flat_index(x2, y2, z2),
    ensures
        x1 == x2,
        y1 == y2,
        z1 == z2,
{
}

/// Every index of the block array is the flat index of a coordinate inside
/// the chunk.
pub proof fn lemma_flat_index_surjective(i: int)
    requires
        0 <= i < CHUNK_SIZE,
    ensures
        in_chunk(spec_local_x(i), spec_local_y(i), spec_local_z(i)),
        flat_index(spec_local_x(i), spec_local_y(i), spec_local_z(i)) == i,
{
}

/// The flat index of a coordinate inside the chunk leads back to that
/// coordinate.
pub proof fn lemma_flat_index_decodes(x: int, y: int, z: int)
    requires
        in_chunk(x, y, z),
    ensures
        spec_local_x(flat_index(x, y, z)) == x,
        spec_local_y(flat_index(x, y, z)) == y,
        spec_local_z(flat_index(x, y, z)) == z,
{
}

/// A dense column of blocks, `CHUNK_WIDTH` by `CHUNK_HEIGHT` by
/// `CHUNK_DEPTH`, tagged with its place in the chunk grid.
pub struct Chunk {
    blocks: Vec<Block>,
    coords: ChunkGridCoordinate,
}

impl View for Chunk {
    type V = Seq<Block>;

    /// The blocks of the chunk, each at its flat index.
    closed spec fn view(&self) -> Seq<Block> {
        self.blocks@
    }
}

impl Chunk {
    /// A chunk holds exactly `CHUNK_SIZE` blocks.
    pub open spec fn wf(&self) -> bool {
        self@.len() == CHUNK_SIZE
    }

    /// The chunk's place in the grid.
    pub closed spec fn spec_coords(&self) -> ChunkGridCoordinate {
        self.coords
    }

    /// The block at the local coordinate `(x, y, z)`.
    pub open spec fn spec_block(&self, x: int, y: int, z: int) -> Block {
        self@[flat_index(x, y, z)]
    }

    /// A chunk at `coords` filled with air.
    pub fn new(coords: ChunkGridCoordinate) -> (chunk: Self)
        ensures
            chunk.wf(),
            chunk.coords() == coords,
            chunk@ == Seq::new(CHUNK_SIZE as nat, |i: int| Block { id: AIR }),
    {
        let blocks = vec![Block { id: AIR }; CHUNK_SIZE];
        assert(blocks@ =~= Seq::new(CHUNK_SIZE as nat, |i: int| Block { id: AIR }));
        Self { blocks, coords }
    }

    /// The chunk's place in the grid.
    #[verifier::when_used_as_spec(spec_coords)]
    pub fn coords(&self) -> (coords: ChunkGridCoordinate)
        ensures
            coords == self.spec_coords(),
    {
        self.coords
    }

    /// Returns the block at the local coordinate `(x, y, z)`.
    pub fn block(&self, x: usize, y: usize, z: usize) -> (block: Block)
        requires
            self.wf(),
            in_chunk(x as int, y as int, z as int),
        ensures
            block == self.spec_block(x as int, y as int, z as int),
    {
        self.blocks[at(x, y, z)]
    }

    /// Replaces the block at the local coordinate `(x, y, z)`.
    pub fn set_block(&mut self, x: usize, y: usize, z: usize, block: Block)
        requires
            old(self).wf(),
            in_chunk(x as int, y as int, z as int),
        ensures
            final(self).wf(),
            final(self).coords() == old(self).coords(),
            final(self)@ == old(self)@.update(flat_index(x as int, y as int, z as int), block),
    {
        let i = at(x, y, z);
        self.blocks[i] = block;
    }
}

impl Clone for Chunk {
    /// A copy of the chunk.
    fn clone(&self) -> (copy: Self)
        ensures
            copy.coords() == self.coords(),
            copy@ == self@,
    {
        let blocks = self.blocks.clone();
        assert(blocks@ =~= self.blocks@);
        Self { blocks, coords: self.coords }
    }
}

} // verus!
