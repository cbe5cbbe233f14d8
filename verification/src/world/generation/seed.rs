use crate::chunk::chunk_grid::ChunkGridCoordinate;
use crate::world::generation::random::{spec_unsigned, unsigned, Seed};
use vstd::prelude::*;

verus! {

/// The seed of a whole world.
#[derive(Copy, Clone, Debug, PartialEq, Eq, Structural)]
pub struct WorldSeed(pub Seed);

/// The seed of one chunk of a world.
#[derive(Copy, Clone, Debug, PartialEq, Eq, Structural)]
pub struct ChunkSeed(pub Seed);

/// Cantor's pairing of `k1` and `k2`, each step of it kept to 64 bits.
pub open spec fn spec_pairing(k1: int, k2: int) -> int {
    let sum = (k1 + k2) % 0x1_0000_0000_0000_0000;
    let next = (sum + 1) % 0x1_0000_0000_0000_0000;
    let product = (sum * next) % 0x1_0000_0000_0000_0000;
    (product / 2 + k2) % 0x1_0000_0000_0000_0000
}

/// The seed of the chunk at `coords` in the world of `seed`: the pairing of
/// the chunk's two axes, added to the world's seed, its lower 32 bits.
pub open spec fn spec_chunk_seed(seed: Seed, coords: ChunkGridCoordinate) -> Seed {
    let value = spec_pairing(spec_unsigned(coords.x) as int, spec_unsigned(coords.z) as int);
    Seed((((seed.0 + value) % 0x1_0000_0000_0000_0000) % 0x1_0000_0000) as u32)
}

impl WorldSeed {
    /// A seed that differs from run to run.
    pub fn new() -> (seed: Self) {
        Self(Seed::new())
    }

    /// The seed of the chunk at `coords`. The same world seed and chunk give
    /// the same chunk seed, whenever it is asked for.
    pub fn to_chunk_seed(&self, coords: ChunkGridCoordinate) -> (seed: ChunkSeed)
        ensures
            seed.0 == spec_chunk_seed(self.0, coords),
    {
        ChunkSeed::new(&self.0, coords)
    }
}

impl ChunkSeed {
    /// The seed of the chunk at `coords` in the world of `seed`.
    pub fn new(seed: &Seed, coords: ChunkGridCoordinate) -> (chunk_seed: Self)
        ensures
            chunk_seed.0 == spec_chunk_seed(*seed, coords),
    {
        let k1: u128 = unsigned(coords.x) as u128;
        let k2: u128 = unsigned(coords.z) as u128;
        let sum: u128 = (k1 + k2) % 0x1_0000_0000_0000_0000;
        let next: u128 = (sum + 1) % 0x1_0000_0000_0000_0000;
        assert(sum * next <= 0xffff_ffff_ffff_ffff * 0xffff_ffff_ffff_ffff) by (nonlinear_arith)
            requires
                sum <= 0xffff_ffff_ffff_ffff,
                next <= 0xffff_ffff_ffff_ffff,
        ;
        let product: u128 = (sum * next) % 0x1_0000_0000_0000_0000;
        let value: u128 = (product / 2 + k2) % 0x1_0000_0000_0000_0000;
        let folded: u128 = (seed.0 as u128 + value) % 0x1_0000_0000_0000_0000;
        Self(Seed((folded % 0x1_0000_0000) as u32))
    }
}

} // verus!
