use crate::block::Block;
use crate::chunk::chunk::{
    flat_index, spec_local_x, spec_local_y, spec_local_z, Chunk, AIR, CHUNK_SIZE,
};
use crate::chunk::chunk_grid::ChunkGridCoordinate;
use crate::world::generation::height_map::{spec_cell_height, HeightMap};
use crate::world::generation::noise::{CombinedNoise, LayeredNoise, LayeredNoiseOptions, NoiseFn};
use crate::world::generation::seed::spec_chunk_seed;
use crate::world::geometry::Rect;
use crate::world::generation::random::{spec_advance, spec_draw, spec_output, spec_step, Prng};
use crate::world::generation::seed::WorldSeed;
use vstd::prelude::*;

verus! {

/// The block that cannot be dug through.
pub const BEDROCK: u8 = 7;

pub const STONE: u8 = 1;

pub const DIRT: u8 = 3;

pub const GRASS: u8 = 2;

pub const SAND: u8 = 12;

pub const WATER: u8 = 9;

pub const LOG: u8 = 17;

pub const LEAVES: u8 = 18;

pub const TALL_GRASS: u8 = 31;

pub const ROSE: u8 = 38;

pub const DANDELION: u8 = 37;

/// The number of layers at the bottom of a chunk that hold bedrock among
/// the stone.
pub const BASE_THICKNESS: usize = 5;

/// By how many thousandths bedrock becomes less likely with each layer.
pub const BASE_FILL_DECREASE: u16 = 200;

pub const MIN_DIRT_THICKNESS: usize = 3;

pub const MAX_DIRT_THICKNESS: usize = 5;

/// The layer up to which water fills what the terrain leaves open.
pub const SEA_LEVEL: usize = 63;

/// The height below which the surface is sand.
pub const BEACH_LEVEL: usize = 62;

/// The number of blocks in the layers that hold bedrock.
pub const BASE_SIZE: usize = 1280;

/// The block of the base layers at position `index` of the block array, for
/// a stream that was in `state` before the first block of the base was
/// drawn. The blocks are drawn in the order of the array. Layer 0 is all
/// bedrock; with each layer bedrock becomes less likely by a fifth.
pub open spec fn spec_base_block(state: u64, index: int) -> Block {
    if spec_draw(state, index as nat) % 1000 < 1000 - 200 * spec_local_y(index) {
        Block { id: BEDROCK }
    } else {
        Block { id: STONE }
    }
}

/// The blocks of a chunk once its base layers are laid over `blocks`.
pub open spec fn spec_base(blocks: Seq<Block>, state: u64) -> Seq<Block> {
    Seq::new(
        blocks.len(),
        |i: int|
            if i < BASE_SIZE {
                spec_base_block(state, i)
            } else {
                blocks[i]
            },
    )
}

/// The blocks of a chunk of which the first `count` blocks of the base
/// layers are laid over `blocks`.
pub open spec fn spec_base_prefix(blocks: Seq<Block>, state: u64, count: int) -> Seq<Block> {
    Seq::new(
        blocks.len(),
        |i: int|
            if i < count {
                spec_base_block(state, i)
            } else {
                blocks[i]
            },
    )
}

/// `blocks` with the column `(x, z)` filled with `block` from the layer
/// `from` up to, not including, the layer `to`.
pub open spec fn spec_fill(blocks: Seq<Block>, x: int, z: int, from: int, to: int, block: Block) -> Seq<
    Block,
> {
    Seq::new(
        blocks.len(),
        |i: int|
            if spec_local_x(i) == x && spec_local_z(i) == z && from <= spec_local_y(i) < to {
                block
            } else {
                blocks[i]
            },
    )
}

/// Fills the column `(x, z)` of `chunk` with `block` from the layer `from`
/// up to, not including, the layer `to`.
fn fill_column(chunk: &mut Chunk, x: usize, z: usize, from: usize, to: usize, block: Block)
    requires
        old(chunk).wf(),
        x < 16,
        z < 16,
        to <= 256,
    ensures
        final(chunk).wf(),
        final(chunk).coords() == old(chunk).coords(),
        final(chunk)@ == spec_fill(old(chunk)@, x as int, z as int, from as int, to as int, block),
{
    let ghost before = chunk@;
    let mut y: usize = from;
    assert(chunk@ =~= spec_fill(before, x as int, z as int, from as int, y as int, block));
    while y < to
        invariant
            chunk.wf(),
            chunk.coords() == old(chunk).coords(),
            before == old(chunk)@,
            x < 16,
            z < 16,
            to <= 256,
            from <= y,
            y <= to || y == from,
            chunk@ == spec_fill(before, x as int, z as int, from as int, y as int, block),
        decreases to - y,
    {
        chunk.set_block(x, y, z, block);
        y = y + 1;
        assert(chunk@ =~= spec_fill(before, x as int, z as int, from as int, y as int, block));
    }
    assert(chunk@ =~= spec_fill(before, x as int, z as int, from as int, to as int, block));
}

/// The height of the column `(x, z)` in the heights of a chunk, which are
/// stored row by row, the rows along x.
pub open spec fn spec_column_height(heights: Seq<u8>, x: int, z: int) -> int {
    heights[x + 16 * z] as int
}

/// Whether `heights` holds one height for each column of a chunk, each of
/// them from `low` up to, not including, `high`.
pub open spec fn spec_heights_within(heights: Seq<u8>, low: int, high: int) -> bool {
    &&& heights.len() == 256
    &&& forall|k: int| 0 <= k < 256 ==> low <= #[trigger] heights[k] < high
}

/// How many layers of dirt lie under the surface of the column `(x, z)`,
/// for a stream that was in `state` before the first column was drawn. The
/// columns are drawn row by row, the rows along z.
pub open spec fn spec_dirt_thickness(state: u64, x: int, z: int) -> int {
    3 + (spec_draw(state, (x * 16 + z) as nat) as int) % 3
}

/// The block at the surface of a column of height `height`: sand near the
/// sea, grass above.
pub open spec fn spec_surface(height: int) -> Block {
    if height < BEACH_LEVEL {
        Block { id: SAND }
    } else {
        Block { id: GRASS }
    }
}

/// The block at `(x, y, z)` once the strata are laid: the surface block at
/// the height of the column, dirt in the layers under it, stone from the
/// base layers up to the dirt, and elsewhere `under`, the block that was
/// there.
pub open spec fn spec_strata_block(
    heights: Seq<u8>,
    state: u64,
    x: int,
    y: int,
    z: int,
    under: Block,
) -> Block {
    let height = spec_column_height(heights, x, z);
    let dirt_height = height - spec_dirt_thickness(state, x, z);
    if y == height {
        spec_surface(height)
    } else if dirt_height <= y < height {
        Block { id: DIRT }
    } else if BASE_THICKNESS <= y < dirt_height {
        Block { id: STONE }
    } else {
        under
    }
}

/// The blocks of a chunk once the strata of its first `columns` columns
/// are laid over `blocks`.
pub open spec fn spec_strata_prefix(
    heights: Seq<u8>,
    blocks: Seq<Block>,
    state: u64,
    columns: int,
) -> Seq<Block> {
    Seq::new(
        blocks.len(),
        |i: int|
            if spec_local_x(i) * 16 + spec_local_z(i) < columns {
                spec_strata_block(
                    heights,
                    state,
                    spec_local_x(i),
                    spec_local_y(i),
                    spec_local_z(i),
                    blocks[i],
                )
            } else {
                blocks[i]
            },
    )
}

/// The blocks of a chunk once the strata are laid over `blocks`.
pub open spec fn spec_strata(heights: Seq<u8>, blocks: Seq<Block>, state: u64) -> Seq<Block> {
    Seq::new(
        blocks.len(),
        |i: int|
            spec_strata_block(
                heights,
                state,
                spec_local_x(i),
                spec_local_y(i),
                spec_local_z(i),
                blocks[i],
            ),
    )
}

/// `blocks` with the square of blocks in the layer `level`, no further than
/// `radius` along x and along z from the column `(x, z)`, replaced by
/// `block`; of the square only the rows below `row`, and in the row `row`
/// the blocks below `column`.
pub open spec fn spec_square_prefix(
    blocks: Seq<Block>,
    x: int,
    z: int,
    radius: int,
    level: int,
    block: Block,
    row: int,
    column: int,
) -> Seq<Block> {
    Seq::new(
        blocks.len(),
        |i: int|
            if spec_local_y(i) == level && x - radius <= spec_local_x(i) <= x + radius && z
                - radius <= spec_local_z(i) <= z + radius && (spec_local_x(i) < row || (
            spec_local_x(i) == row && spec_local_z(i) < column)) {
                block
            } else {
                blocks[i]
            },
    )
}

/// `blocks` with the square of blocks in the layer `level`, no further than
/// `radius` along x and along z from the column `(x, z)`, replaced by
/// `block`.
pub open spec fn spec_square(
    blocks: Seq<Block>,
    x: int,
    z: int,
    radius: int,
    level: int,
    block: Block,
) -> Seq<Block> {
    Seq::new(
        blocks.len(),
        |i: int|
            if spec_local_y(i) == level && x - radius <= spec_local_x(i) <= x + radius && z
                - radius <= spec_local_z(i) <= z + radius {
                block
            } else {
                blocks[i]
            },
    )
}

/// Replaces the square of blocks in the layer `level`, no further than
/// `radius` along x and along z from the column `(x, z)`, by `block`.
fn fill_square(chunk: &mut Chunk, x: usize, z: usize, radius: usize, level: usize, block: Block)
    requires
        old(chunk).wf(),
        radius <= x,
        x + radius < 16,
        radius <= z,
        z + radius < 16,
        level < 256,
    ensures
        final(chunk).wf(),
        final(chunk).coords() == old(chunk).coords(),
        final(chunk)@ == spec_square(
            old(chunk)@,
            x as int,
            z as int,
            radius as int,
            level as int,
            block,
        ),
{
    let ghost before = chunk@;
    let mut i: usize = x - radius;
    assert(chunk@ =~= spec_square_prefix(
        before,
        x as int,
        z as int,
        radius as int,
        level as int,
        block,
        i as int,
        0,
    ));
    while i <= x + radius
        invariant
            chunk.wf(),
            chunk.coords() == old(chunk).coords(),
            radius <= x,
            x + radius < 16,
            radius <= z,
            z + radius < 16,
            level < 256,
            x - radius <= i <= x + radius + 1,
            chunk@ == spec_square_prefix(
                before,
                x as int,
                z as int,
                radius as int,
                level as int,
                block,
                i as int,
                0,
            ),
        decreases x + radius + 1 - i,
    {
        let mut j: usize = z - radius;
        while j <= z + radius
            invariant
                chunk.wf(),
                chunk.coords() == old(chunk).coords(),
                radius <= x,
                x + radius < 16,
                radius <= z,
                z + radius < 16,
                level < 256,
                x - radius <= i <= x + radius,
                z - radius <= j <= z + radius + 1,
                chunk@ == spec_square_prefix(
                    before,
                    x as int,
                    z as int,
                    radius as int,
                    level as int,
                    block,
                    i as int,
                    j as int,
                ),
            decreases z + radius + 1 - j,
        {
            chunk.set_block(i, level, j, block);
            j = j + 1;
            assert(chunk@ =~= spec_square_prefix(
                before,
                x as int,
                z as int,
                radius as int,
                level as int,
                block,
                i as int,
                j as int,
            )) by {
                assert forall|k: int| 0 <= k < CHUNK_SIZE implies chunk@[k] == spec_square_prefix(
                    before,
                    x as int,
                    z as int,
                    radius as int,
                    level as int,
                    block,
                    i as int,
                    j as int,
                )[k] by {
                    crate::chunk::chunk::lemma_flat_index_surjective(k);
                }
            }
        }
        i = i + 1;
        assert(chunk@ =~= spec_square_prefix(
            before,
            x as int,
            z as int,
            radius as int,
            level as int,
            block,
            i as int,
            0,
        ));
    }
    assert(chunk@ =~= spec_square(before, x as int, z as int, radius as int, level as int, block));
}

/// `blocks` with the block `(x, level, z)` and the four blocks beside it in
/// its layer replaced by `block`.
pub open spec fn spec_cross(blocks: Seq<Block>, x: int, z: int, level: int, block: Block) -> Seq<
    Block,
> {
    Seq::new(
        blocks.len(),
        |i: int|
            if spec_local_y(i) == level && ((spec_local_x(i) == x && z - 1 <= spec_local_z(i) <= z
                + 1) || (spec_local_z(i) == z && x - 1 <= spec_local_x(i) <= x + 1)) {
                block
            } else {
                blocks[i]
            },
    )
}

/// Replaces the block `(x, level, z)` and the four blocks beside it in its
/// layer by `block`.
fn fill_cross(chunk: &mut Chunk, x: usize, z: usize, level: usize, block: Block)
    requires
        old(chunk).wf(),
        1 <= x < 15,
        1 <= z < 15,
        level < 256,
    ensures
        final(chunk).wf(),
        final(chunk).coords() == old(chunk).coords(),
        final(chunk)@ == spec_cross(old(chunk)@, x as int, z as int, level as int, block),
{
    chunk.set_block(x, level, z, block);
    chunk.set_block(x + 1, level, z, block);
    chunk.set_block(x - 1, level, z, block);
    chunk.set_block(x, level, z + 1, block);
    chunk.set_block(x, level, z - 1, block);
    assert(chunk@ =~= spec_cross(old(chunk)@, x as int, z as int, level as int, block)) by {
        assert forall|i: int| 0 <= i < CHUNK_SIZE implies chunk@[i] == spec_cross(
            old(chunk)@,
            x as int,
            z as int,
            level as int,
            block,
        )[i] by {
            crate::chunk::chunk::lemma_flat_index_surjective(i);
        }
    }
}

/// The height of the trunk of a tree that is drawn from a stream in
/// `state`: four to six blocks.
pub open spec fn spec_trunk_height(state: u64) -> int {
    4 + (spec_output(spec_step(state)) as int) % 3
}

/// Whether the block `(bx, by, bz)` belongs to the trunk of the tree that
/// stands on `(x, y, z)` with a trunk of `trunk` blocks.
pub open spec fn spec_in_trunk(x: int, y: int, z: int, trunk: int, bx: int, by: int, bz: int) -> bool {
    bx == x && bz == z && y <= by < y + trunk
}

/// Whether the block `(bx, by, bz)` belongs to the crown of the tree that
/// stands on `(x, y, z)` with a trunk of `trunk` blocks: two layers of five
/// by five blocks around the top of the trunk, a layer of three by three
/// on them, and on that a cross.
pub open spec fn spec_in_crown(x: int, y: int, z: int, trunk: int, bx: int, by: int, bz: int) -> bool {
    let top = y + trunk;
    let dx = if bx >= x {
        bx - x
    } else {
        x - bx
    };
    let dz = if bz >= z {
        bz - z
    } else {
        z - bz
    };
    ||| by == top + 1 && dx + dz <= 1
    ||| by == top && dx <= 1 && dz <= 1
    ||| top - 2 <= by <= top - 1 && dx <= 2 && dz <= 2
}

/// `blocks` with a tree on `(x, y, z)` whose trunk has `trunk` blocks.
pub open spec fn spec_with_tree(blocks: Seq<Block>, x: int, y: int, z: int, trunk: int) -> Seq<
    Block,
> {
    Seq::new(
        blocks.len(),
        |i: int|
            if spec_in_trunk(x, y, z, trunk, spec_local_x(i), spec_local_y(i), spec_local_z(i)) {
                Block { id: LOG }
            } else if spec_in_crown(
                x,
                y,
                z,
                trunk,
                spec_local_x(i),
                spec_local_y(i),
                spec_local_z(i),
            ) {
                Block { id: LEAVES }
            } else {
                blocks[i]
            },
    )
}

/// The number below one thousand that a stream in `state` hands out next.
pub open spec fn spec_per_mille(state: u64) -> int {
    (spec_output(spec_step(state)) as int) % 1000
}

/// The least number, of the thousand that can be drawn, that plants a tree
/// or tall grass: each has four chances in a hundred.
pub const PLANT_THRESHOLD: u16 = 960;

/// The least number, of the thousand that can be drawn, that plants a
/// flower: each has one chance in a hundred.
pub const FLOWER_THRESHOLD: u16 = 990;

/// The blocks and the stream once the column `(x, z)` is decorated. A
/// column whose surface lies below the sea stays bare, and draws nothing.
/// For another column up to four numbers are drawn, one after the other,
/// until one of them is high enough: the first plants a tree, the second
/// tall grass, the third a rose, the fourth a dandelion, each on the block
/// above the surface. What is planted ends the drawing.
pub open spec fn spec_decorate_column(
    heights: Seq<u8>,
    x: int,
    z: int,
    blocks: Seq<Block>,
    state: u64,
) -> (Seq<Block>, u64) {
    let y = spec_column_height(heights, x, z) + 1;
    let first = spec_step(state);
    let second = spec_step(first);
    let third = spec_step(second);
    let fourth = spec_step(third);
    if y <= SEA_LEVEL {
        (blocks, state)
    } else if spec_per_mille(state) >= PLANT_THRESHOLD {
        (spec_with_tree(blocks, x, y, z, spec_trunk_height(first)), second)
    } else if spec_per_mille(first) >= PLANT_THRESHOLD {
        (blocks.update(flat_index(x, y, z), Block { id: TALL_GRASS }), second)
    } else if spec_per_mille(second) >= FLOWER_THRESHOLD {
        (blocks.update(flat_index(x, y, z), Block { id: ROSE }), third)
    } else if spec_per_mille(third) >= FLOWER_THRESHOLD {
        (blocks.update(flat_index(x, y, z), Block { id: DANDELION }), fourth)
    } else {
        (blocks, fourth)
    }
}

/// The number of columns of a chunk that can be decorated: those that lie
/// two blocks or more from each edge, so that the crown of a tree stays in
/// the chunk.
pub const INNER_COLUMNS: usize = 144;

/// The blocks and the stream once the first `columns` inner columns are
/// decorated, row by row, the rows along z.
pub open spec fn spec_decorated(heights: Seq<u8>, columns: nat, blocks: Seq<Block>, state: u64) -> (
    Seq<Block>,
    u64,
)
    decreases columns,
{
    if columns == 0 {
        (blocks, state)
    } else {
        let last = (columns - 1) as int;
        let before = spec_decorated(heights, (columns - 1) as nat, blocks, state);
        spec_decorate_column(heights, 2 + last / 12, 2 + last % 12, before.0, before.1)
    }
}

/// The decoration of a column keeps the number of blocks.
pub proof fn lemma_decorate_column_len(
    heights: Seq<u8>,
    x: int,
    z: int,
    blocks: Seq<Block>,
    state: u64,
)
    requires
        0 <= x < 16,
        0 <= z < 16,
        spec_heights_within(heights, 0, 248),
        blocks.len() == CHUNK_SIZE,
    ensures
        spec_decorate_column(heights, x, z, blocks, state).0.len() == blocks.len(),
{
    assert(heights[x + 16 * z] < 248);
}

/// Decoration keeps the number of blocks.
pub proof fn lemma_decorated_len(heights: Seq<u8>, columns: nat, blocks: Seq<Block>, state: u64)
    requires
        columns <= INNER_COLUMNS,
        spec_heights_within(heights, 0, 248),
        blocks.len() == CHUNK_SIZE,
    ensures
        spec_decorated(heights, columns, blocks, state).0.len() == blocks.len(),
    decreases columns,
{
    if columns > 0 {
        let last = (columns - 1) as int;
        let before = spec_decorated(heights, (columns - 1) as nat, blocks, state);
        lemma_decorated_len(heights, (columns - 1) as nat, blocks, state);
        lemma_decorate_column_len(heights, 2 + last / 12, 2 + last % 12, before.0, before.1);
    }
}

/// The block at `(x, y, z)` once the sea is filled in: water from above
/// the surface of the column up to the level of the sea, and elsewhere
/// `under`, the block that was there.
pub open spec fn spec_water_block(heights: Seq<u8>, x: int, y: int, z: int, under: Block) -> Block {
    if spec_column_height(heights, x, z) + 1 <= y < SEA_LEVEL {
        Block { id: WATER }
    } else {
        under
    }
}

/// The blocks of a chunk once the sea is filled in over its first
/// `columns` columns.
pub open spec fn spec_water_prefix(heights: Seq<u8>, blocks: Seq<Block>, columns: int) -> Seq<
    Block,
> {
    Seq::new(
        blocks.len(),
        |i: int|
            if spec_local_x(i) * 16 + spec_local_z(i) < columns {
                spec_water_block(
                    heights,
                    spec_local_x(i),
                    spec_local_y(i),
                    spec_local_z(i),
                    blocks[i],
                )
            } else {
                blocks[i]
            },
    )
}

/// The blocks of a chunk once the sea is filled in.
pub open spec fn spec_water(heights: Seq<u8>, blocks: Seq<Block>) -> Seq<Block> {
    Seq::new(
        blocks.len(),
        |i: int|
            spec_water_block(
                heights,
                spec_local_x(i),
                spec_local_y(i),
                spec_local_z(i),
                blocks[i],
            ),
    )
}

/// The blocks of the chunk whose columns have the heights `heights` and
/// whose stream starts in `state`: the base layers over air, on them the
/// strata, then the decoration, then the sea.
pub open spec fn spec_terrain(heights: Seq<u8>, state: u64) -> Seq<Block> {
    let air = Seq::new(CHUNK_SIZE as nat, |i: int| Block { id: AIR });
    let base = spec_base(air, state);
    let after_base = spec_advance(state, BASE_SIZE as nat);
    let strata = spec_strata(heights, base, after_base);
    let after_strata = spec_advance(after_base, 256);
    let decorated = spec_decorated(heights, INNER_COLUMNS as nat, strata, after_strata);
    spec_water(heights, decorated.0)
}

/// The least height of the terrain.
pub const MIN_HEIGHT: u8 = 40;

/// The height that the terrain stays below.
pub const MAX_HEIGHT: u8 = 80;

/// The noise that shapes the terrain of the world of `seed`.
pub open spec fn spec_terrain_noise(seed: WorldSeed) -> CombinedNoise {
    CombinedNoise {
        first: LayeredNoise {
            options: LayeredNoiseOptions {
                octaves: 4,
                scale: 100,
                persistence: 50,
                lacunarity: 20,
                seed: seed.0,
            },
        },
        second: LayeredNoise {
            options: LayeredNoiseOptions {
                octaves: 6,
                scale: 60,
                persistence: 50,
                lacunarity: 19,
                seed: seed.0,
            },
        },
        weight: 10,
    }
}

/// The height of the surface of the world of `seed` at the world position
/// `(x, z)`. It depends on the position alone, not on the chunk that the
/// position lies in.
pub open spec fn spec_surface_height(seed: WorldSeed, x: i64, z: i64) -> u8 {
    spec_cell_height(MIN_HEIGHT..MAX_HEIGHT, spec_terrain_noise(seed).spec_get(x, z))
}

/// The heights of the columns of the chunk at `coords`, row by row, the
/// rows along x.
pub open spec fn spec_chunk_heights(seed: WorldSeed, coords: ChunkGridCoordinate) -> Seq<u8> {
    Seq::new(
        256,
        |k: int|
            spec_surface_height(
                seed,
                (16 * coords.x + k % 16) as i64,
                (16 * coords.z + k / 16) as i64,
            ),
    )
}

/// The blocks of the chunk at `coords` in the world of `seed`.
pub open spec fn spec_generated(coords: ChunkGridCoordinate, seed: WorldSeed) -> Seq<Block> {
    spec_terrain(
        spec_chunk_heights(seed, coords),
        Prng::spec_seeded(spec_chunk_seed(seed.0, coords)),
    )
}

/// The heights of a chunk lie in the range of the terrain.
pub proof fn lemma_chunk_heights(seed: WorldSeed, coords: ChunkGridCoordinate)
    ensures
        spec_heights_within(
            spec_chunk_heights(seed, coords),
            MIN_HEIGHT as int,
            MAX_HEIGHT as int,
        ),
{
    let heights = spec_chunk_heights(seed, coords);
    assert forall|k: int| 0 <= k < 256 implies MIN_HEIGHT <= #[trigger] heights[k]
        < MAX_HEIGHT by {
        crate::world::generation::height_map::lemma_cell_height_in_range(
            MIN_HEIGHT..MAX_HEIGHT,
            spec_terrain_noise(seed).spec_get(
                (16 * coords.x + k % 16) as i64,
                (16 * coords.z + k / 16) as i64,
            ),
        );
    }
}

/// The decoration of a column leaves the blocks up to the surface of the
/// lowest column as they are.
pub proof fn lemma_decorate_column_keeps_low(
    heights: Seq<u8>,
    x: int,
    z: int,
    blocks: Seq<Block>,
    state: u64,
    low: int,
    index: int,
)
    requires
        0 <= x < 16,
        0 <= z < 16,
        spec_heights_within(heights, low, 248),
        0 <= low,
        blocks.len() == CHUNK_SIZE,
        0 <= index < CHUNK_SIZE,
        spec_local_y(index) <= low,
    ensures
        spec_decorate_column(heights, x, z, blocks, state).0[index] == blocks[index],
{
    assert(low <= heights[x + 16 * z] < 248);
    crate::chunk::chunk::lemma_flat_index_decodes(x, spec_column_height(heights, x, z) + 1, z);
}

/// Decoration leaves the blocks up to the surface of the lowest column as
/// they are.
pub proof fn lemma_decorated_keeps_low(
    heights: Seq<u8>,
    columns: nat,
    blocks: Seq<Block>,
    state: u64,
    low: int,
    index: int,
)
    requires
        columns <= INNER_COLUMNS,
        spec_heights_within(heights, low, 248),
        0 <= low,
        blocks.len() == CHUNK_SIZE,
        0 <= index < CHUNK_SIZE,
        spec_local_y(index) <= low,
    ensures
        spec_decorated(heights, columns, blocks, state).0[index] == blocks[index],
    decreases columns,
{
    if columns > 0 {
        let last = (columns - 1) as int;
        let before = spec_decorated(heights, (columns - 1) as nat, blocks, state);
        lemma_decorated_keeps_low(heights, (columns - 1) as nat, blocks, state, low, index);
        lemma_decorated_len(heights, (columns - 1) as nat, blocks, state);
        lemma_decorate_column_keeps_low(
            heights,
            2 + last / 12,
            2 + last % 12,
            before.0,
            before.1,
            low,
            index,
        );
    }
}

/// The strata leave the base layers as they are, where no column is lower
/// than the base and the thickest dirt together.
pub proof fn lemma_strata_keeps_base(heights: Seq<u8>, blocks: Seq<Block>, state: u64, index: int)
    requires
        spec_heights_within(heights, BASE_THICKNESS + MAX_DIRT_THICKNESS, 256),
        blocks.len() == CHUNK_SIZE,
        0 <= index < BASE_SIZE,
    ensures
        spec_strata(heights, blocks, state).len() == CHUNK_SIZE,
        spec_strata(heights, blocks, state)[index] == blocks[index],
{
    assert(heights[spec_local_x(index) + 16 * spec_local_z(index)] >= 10);
}

/// The sea leaves the blocks up to the surface of the lowest column as
/// they are.
pub proof fn lemma_water_keeps_low(heights: Seq<u8>, blocks: Seq<Block>, low: int, index: int)
    requires
        spec_heights_within(heights, low, 256),
        blocks.len() == CHUNK_SIZE,
        0 <= index < CHUNK_SIZE,
        spec_local_y(index) <= low,
    ensures
        spec_water(heights, blocks).len() == CHUNK_SIZE,
        spec_water(heights, blocks)[index] == blocks[index],
{
    assert(heights[spec_local_x(index) + 16 * spec_local_z(index)] >= low);
}

/// In every chunk of every world the base layers are as they were laid:
/// each of their blocks is bedrock or stone, none is air, and the lowest
/// layer is all bedrock.
pub proof fn lemma_base_is_solid(coords: ChunkGridCoordinate, seed: WorldSeed, index: int)
    requires
        0 <= index < BASE_SIZE,
    ensures
        spec_generated(coords, seed).len() == CHUNK_SIZE,
        spec_generated(coords, seed)[index] == spec_base_block(
            Prng::spec_seeded(spec_chunk_seed(seed.0, coords)),
            index,
        ),
        spec_generated(coords, seed)[index].id == BEDROCK || spec_generated(coords, seed)[index].id
            == STONE,
        spec_generated(coords, seed)[index].id != AIR,
        index < 256 ==> spec_generated(coords, seed)[index].id == BEDROCK,
{
    let heights = spec_chunk_heights(seed, coords);
    let state = Prng::spec_seeded(spec_chunk_seed(seed.0, coords));
    let air = Seq::new(CHUNK_SIZE as nat, |i: int| Block { id: AIR });
    let base = spec_base(air, state);
    let after_base = spec_advance(state, BASE_SIZE as nat);
    let strata = spec_strata(heights, base, after_base);
    let after_strata = spec_advance(after_base, 256);
    let decorated = spec_decorated(heights, INNER_COLUMNS as nat, strata, after_strata);
    lemma_chunk_heights(seed, coords);
    assert(base[index] == spec_base_block(state, index));
    lemma_strata_keeps_base(heights, base, after_base, index);
    lemma_decorated_keeps_low(heights, INNER_COLUMNS as nat, strata, after_strata, 40, index);
    lemma_decorated_len(heights, INNER_COLUMNS as nat, strata, after_strata);
    lemma_water_keeps_low(heights, decorated.0, 40, index);
    assert(spec_generated(coords, seed) == spec_water(heights, decorated.0));
}

/// The decoration of a column leaves the surface of each column as it is,
/// or covers it with leaves.
pub proof fn lemma_decorate_column_keeps_surface(
    heights: Seq<u8>,
    x: int,
    z: int,
    blocks: Seq<Block>,
    state: u64,
    sx: int,
    sz: int,
)
    requires
        0 <= x < 16,
        0 <= z < 16,
        0 <= sx < 16,
        0 <= sz < 16,
        spec_heights_within(heights, 0, 248),
        blocks.len() == CHUNK_SIZE,
    ensures
        ({
            let index = flat_index(sx, spec_column_height(heights, sx, sz), sz);
            let after = spec_decorate_column(heights, x, z, blocks, state).0;
            after[index] == blocks[index] || after[index].id == LEAVES
        }),
{
    assert(0 <= heights[x + 16 * z] < 248);
    assert(0 <= heights[sx + 16 * sz] < 248);
    crate::chunk::chunk::lemma_flat_index_decodes(x, spec_column_height(heights, x, z) + 1, z);
    crate::chunk::chunk::lemma_flat_index_decodes(sx, spec_column_height(heights, sx, sz), sz);
}

/// Decoration leaves the surface of each column as it is, or covers it
/// with leaves.
pub proof fn lemma_decorated_keeps_surface(
    heights: Seq<u8>,
    columns: nat,
    blocks: Seq<Block>,
    state: u64,
    sx: int,
    sz: int,
)
    requires
        columns <= INNER_COLUMNS,
        0 <= sx < 16,
        0 <= sz < 16,
        spec_heights_within(heights, 0, 248),
        blocks.len() == CHUNK_SIZE,
    ensures
        ({
            let index = flat_index(sx, spec_column_height(heights, sx, sz), sz);
            let after = spec_decorated(heights, columns, blocks, state).0;
            after[index] == blocks[index] || after[index].id == LEAVES
        }),
    decreases columns,
{
    if columns > 0 {
        let last = (columns - 1) as int;
        let before = spec_decorated(heights, (columns - 1) as nat, blocks, state);
        lemma_decorated_keeps_surface(heights, (columns - 1) as nat, blocks, state, sx, sz);
        lemma_decorated_len(heights, (columns - 1) as nat, blocks, state);
        lemma_decorate_column_keeps_surface(
            heights,
            2 + last / 12,
            2 + last % 12,
            before.0,
            before.1,
            sx,
            sz,
        );
    }
}

/// The strata put the surface block at the height of each column.
pub proof fn lemma_strata_surface(
    heights: Seq<u8>,
    blocks: Seq<Block>,
    state: u64,
    x: int,
    z: int,
)
    requires
        spec_heights_within(heights, 0, 256),
        blocks.len() == CHUNK_SIZE,
        0 <= x < 16,
        0 <= z < 16,
    ensures
        spec_strata(heights, blocks, state).len() == CHUNK_SIZE,
        spec_strata(heights, blocks, state)[flat_index(x, spec_column_height(heights, x, z), z)]
            == spec_surface(spec_column_height(heights, x, z)),
{
    assert(0 <= heights[x + 16 * z] < 256);
    crate::chunk::chunk::lemma_flat_index_decodes(x, spec_column_height(heights, x, z), z);
}

/// The sea leaves the surface of each column as it is.
pub proof fn lemma_water_keeps_surface(heights: Seq<u8>, blocks: Seq<Block>, x: int, z: int)
    requires
        spec_heights_within(heights, 0, 256),
        blocks.len() == CHUNK_SIZE,
        0 <= x < 16,
        0 <= z < 16,
    ensures
        spec_water(heights, blocks)[flat_index(x, spec_column_height(heights, x, z), z)]
            == blocks[flat_index(x, spec_column_height(heights, x, z), z)],
{
    assert(0 <= heights[x + 16 * z] < 256);
    crate::chunk::chunk::lemma_flat_index_decodes(x, spec_column_height(heights, x, z), z);
}

/// In every chunk of every world each column holds its surface block at
/// its height, sand near the sea and grass above, unless the leaves of a
/// tree have grown over it.
pub proof fn lemma_surface(coords: ChunkGridCoordinate, seed: WorldSeed, x: int, z: int)
    requires
        0 <= x < 16,
        0 <= z < 16,
    ensures
        ({
            let height = spec_column_height(spec_chunk_heights(seed, coords), x, z);
            let block = spec_generated(coords, seed)[flat_index(x, height, z)];
            &&& MIN_HEIGHT <= height < MAX_HEIGHT
            &&& block == spec_surface(height) || block.id == LEAVES
        }),
{
    let heights = spec_chunk_heights(seed, coords);
    let state = Prng::spec_seeded(spec_chunk_seed(seed.0, coords));
    let air = Seq::new(CHUNK_SIZE as nat, |i: int| Block { id: AIR });
    let base = spec_base(air, state);
    let after_base = spec_advance(state, BASE_SIZE as nat);
    let strata = spec_strata(heights, base, after_base);
    let after_strata = spec_advance(after_base, 256);
    let decorated = spec_decorated(heights, INNER_COLUMNS as nat, strata, after_strata);
    lemma_chunk_heights(seed, coords);
    assert(MIN_HEIGHT <= heights[x + 16 * z] < MAX_HEIGHT);
    lemma_strata_surface(heights, base, after_base, x, z);
    lemma_decorated_keeps_surface(heights, INNER_COLUMNS as nat, strata, after_strata, x, z);
    lemma_decorated_len(heights, INNER_COLUMNS as nat, strata, after_strata);
    lemma_water_keeps_surface(heights, decorated.0, x, z);
    assert(spec_generated(coords, seed) == spec_water(heights, decorated.0));
}

/// In every chunk of every world water stands in each column from above
/// its surface up to the level of the sea.
pub proof fn lemma_sea(coords: ChunkGridCoordinate, seed: WorldSeed, x: int, y: int, z: int)
    requires
        0 <= x < 16,
        0 <= z < 16,
        spec_column_height(spec_chunk_heights(seed, coords), x, z) < y < SEA_LEVEL,
    ensures
        spec_generated(coords, seed)[flat_index(x, y, z)] == (Block { id: WATER }),
{
    let heights = spec_chunk_heights(seed, coords);
    let state = Prng::spec_seeded(spec_chunk_seed(seed.0, coords));
    let air = Seq::new(CHUNK_SIZE as nat, |i: int| Block { id: AIR });
    let base = spec_base(air, state);
    let after_base = spec_advance(state, BASE_SIZE as nat);
    let strata = spec_strata(heights, base, after_base);
    let after_strata = spec_advance(after_base, 256);
    let decorated = spec_decorated(heights, INNER_COLUMNS as nat, strata, after_strata);
    lemma_chunk_heights(seed, coords);
    lemma_strata_surface(heights, base, after_base, x, z);
    lemma_decorated_len(heights, INNER_COLUMNS as nat, strata, after_strata);
    crate::chunk::chunk::lemma_flat_index_decodes(x, y, z);
    assert(spec_generated(coords, seed) == spec_water(heights, decorated.0));
}

/// Generates the chunk at `coords` of the world of `seed`. The same
/// coordinate and seed give the same chunk, block for block, whenever and
/// wherever it is generated.
pub fn generate_chunk(coords: ChunkGridCoordinate, seed: WorldSeed) -> (chunk: Chunk)
    requires
        coords.in_world(),
    ensures
        chunk.wf(),
        chunk.coords() == coords,
        chunk@ == spec_generated(coords, seed),
{
    let generator = WorldGenerator::new(seed);
    generator.generate_chunk(coords)
}

/// Turns seeds and chunk coordinates into terrain.
pub struct WorldGenerator {
    seed: WorldSeed,
}

impl WorldGenerator {
    /// The seed of the world that the generator builds.
    pub closed spec fn spec_seed(&self) -> WorldSeed {
        self.seed
    }

    pub fn new(seed: WorldSeed) -> (generator: Self)
        ensures
            generator.spec_seed() == seed,
    {
        Self { seed }
    }

    /// Lays the base layers of `chunk`: bedrock and stone, drawn block by
    /// block from `prng`.
    fn generate_base(&self, chunk: &mut Chunk, prng: &mut Prng)
        requires
            old(chunk).wf(),
        ensures
            final(chunk).wf(),
            final(chunk).coords() == old(chunk).coords(),
            final(chunk)@ == spec_base(old(chunk)@, old(prng)@),
            final(prng)@ == spec_advance(old(prng)@, BASE_SIZE as nat),
    {
        let ghost before = chunk@;
        let ghost start = prng@;
        let mut y: usize = 0;
        assert(chunk@ =~= spec_base_prefix(before, start, 0));
        while y < BASE_THICKNESS
            invariant
                chunk.wf(),
                chunk.coords() == old(chunk).coords(),
                before == old(chunk)@,
                start == old(prng)@,
                y <= BASE_THICKNESS,
                prng@ == spec_advance(start, (y * 256) as nat),
                chunk@ == spec_base_prefix(before, start, y * 256),
            decreases BASE_THICKNESS - y,
        {
            let threshold: u16 = 1000 - BASE_FILL_DECREASE * (y as u16);
            let mut x: usize = 0;
            while x < 16
                invariant
                    chunk.wf(),
                    chunk.coords() == old(chunk).coords(),
                    y < BASE_THICKNESS,
                    x <= 16,
                    threshold == 1000 - 200 * y,
                    prng@ == spec_advance(start, (y * 256 + x * 16) as nat),
                    chunk@ == spec_base_prefix(before, start, y * 256 + x * 16),
                decreases 16 - x,
            {
                let mut z: usize = 0;
                while z < 16
                    invariant
                        chunk.wf(),
                        chunk.coords() == old(chunk).coords(),
                        y < BASE_THICKNESS,
                        x < 16,
                        z <= 16,
                        threshold == 1000 - 200 * y,
                        prng@ == spec_advance(start, (y * 256 + x * 16 + z) as nat),
                        chunk@ == spec_base_prefix(before, start, y * 256 + x * 16 + z),
                    decreases 16 - z,
                {
                    let ghost index = flat_index(x as int, y as int, z as int);
                    let ghost earlier = chunk@;
                    let drawn: u16 = prng.next_per_mille();
                    assert(drawn == spec_draw(start, index as nat) % 1000);
                    if drawn < threshold {
                        chunk.set_block(x, y, z, Block { id: BEDROCK });
                    } else {
                        chunk.set_block(x, y, z, Block { id: STONE });
                    }
                    assert(chunk@ == earlier.update(index, spec_base_block(start, index)));
                    z = z + 1;
                    assert(chunk@ =~= spec_base_prefix(before, start, y * 256 + x * 16 + z));
                }
                x = x + 1;
            }
            y = y + 1;
        }
        assert(chunk@ =~= spec_base(before, start));
    }

    /// Lays the strata of `chunk`: in each column stone, then a few layers
    /// of dirt, their number drawn from `prng`, then the surface block at
    /// the height that `height_map` gives.
    fn generate_strata(&self, chunk: &mut Chunk, prng: &mut Prng, height_map: &HeightMap)
        requires
            old(chunk).wf(),
            height_map.wf(),
            height_map.spec_rect().size.x == 16,
            height_map.spec_rect().size.y == 16,
            spec_heights_within(height_map@, MAX_DIRT_THICKNESS as int, 256),
        ensures
            final(chunk).wf(),
            final(chunk).coords() == old(chunk).coords(),
            final(chunk)@ == spec_strata(height_map@, old(chunk)@, old(prng)@),
            final(prng)@ == spec_advance(old(prng)@, 256),
    {
        let ghost before = chunk@;
        let ghost start = prng@;
        let ghost heights = height_map@;
        let mut x: usize = 0;
        assert(chunk@ =~= spec_strata_prefix(heights, before, start, 0));
        while x < 16
            invariant
                chunk.wf(),
                chunk.coords() == old(chunk).coords(),
                height_map.wf(),
                height_map.spec_rect().size.x == 16,
                height_map.spec_rect().size.y == 16,
                heights == height_map@,
                spec_heights_within(heights, MAX_DIRT_THICKNESS as int, 256),
                x <= 16,
                prng@ == spec_advance(start, (x * 16) as nat),
                chunk@ == spec_strata_prefix(heights, before, start, x * 16),
            decreases 16 - x,
        {
            let mut z: usize = 0;
            while z < 16
                invariant
                    chunk.wf(),
                    chunk.coords() == old(chunk).coords(),
                    height_map.wf(),
                    height_map.spec_rect().size.x == 16,
                    height_map.spec_rect().size.y == 16,
                    heights == height_map@,
                    spec_heights_within(heights, MAX_DIRT_THICKNESS as int, 256),
                    x < 16,
                    z <= 16,
                    prng@ == spec_advance(start, (x * 16 + z) as nat),
                    chunk@ == spec_strata_prefix(heights, before, start, x * 16 + z),
                decreases 16 - z,
            {
                let ghost earlier = chunk@;
                let height: usize = height_map.height(x as u8, z as u8) as usize;
                assert(height == spec_column_height(heights, x as int, z as int));
                assert(heights[x + 16 * z] >= 5);
                let dirt_thickness: usize = prng.next_in_range(
                    MIN_DIRT_THICKNESS..MAX_DIRT_THICKNESS + 1,
                );
                assert(dirt_thickness == spec_dirt_thickness(start, x as int, z as int));
                let dirt_height: usize = height - dirt_thickness;
                fill_column(chunk, x, z, BASE_THICKNESS, dirt_height, Block { id: STONE });
                fill_column(chunk, x, z, dirt_height, height, Block { id: DIRT });
                if height < BEACH_LEVEL {
                    chunk.set_block(x, height, z, Block { id: SAND });
                } else {
                    chunk.set_block(x, height, z, Block { id: GRASS });
                }
                z = z + 1;
                assert(chunk@ =~= spec_strata_prefix(heights, before, start, x * 16 + z)) by {
                    assert forall|i: int| 0 <= i < CHUNK_SIZE implies chunk@[i]
                        == spec_strata_prefix(heights, before, start, x * 16 + z)[i] by {
                        crate::chunk::chunk::lemma_flat_index_surjective(i);
                    }
                }
            }
            x = x + 1;
        }
        assert(chunk@ =~= spec_strata(heights, before, start)) by {
            assert forall|i: int| 0 <= i < CHUNK_SIZE implies chunk@[i] == spec_strata(
                heights,
                before,
                start,
            )[i] by {
                crate::chunk::chunk::lemma_flat_index_surjective(i);
            }
        }
    }

    /// Plants a tree on `(x, y, z)`: a trunk of four to six blocks, its
    /// height drawn from `prng`, and a crown of leaves around its top. The
    /// crown reaches two blocks to each side and two blocks above the trunk.
    pub fn generate_tree(&self, x: usize, y: usize, z: usize, chunk: &mut Chunk, prng: &mut Prng)
        requires
            old(chunk).wf(),
            2 <= x < 14,
            2 <= z < 14,
            y + 7 < 256,
        ensures
            final(chunk).wf(),
            final(chunk).coords() == old(chunk).coords(),
            final(prng)@ == spec_step(old(prng)@),
            final(chunk)@ == spec_with_tree(
                old(chunk)@,
                x as int,
                y as int,
                z as int,
                spec_trunk_height(old(prng)@),
            ),
    {
        let ghost before = chunk@;
        let height: usize = prng.next_in_range(4..7);
        let leaves = Block { id: LEAVES };

        fill_cross(chunk, x, z, y + height + 1, leaves);
        fill_square(chunk, x, z, 1, y + height, leaves);

        fill_square(chunk, x, z, 2, y + height - 2, leaves);
        fill_square(chunk, x, z, 2, y + height - 1, leaves);

        fill_column(chunk, x, z, y, y + height, Block { id: LOG });

        assert(chunk@ =~= spec_with_tree(before, x as int, y as int, z as int, height as int)) by {
            assert forall|i: int| 0 <= i < CHUNK_SIZE implies chunk@[i] == spec_with_tree(
                before,
                x as int,
                y as int,
                z as int,
                height as int,
            )[i] by {
                crate::chunk::chunk::lemma_flat_index_surjective(i);
            }
        }
    }

    /// Decorates the inner columns of `chunk` that rise above the sea with
    /// trees, tall grass and flowers, drawn from `prng`.
    fn decorate(&self, chunk: &mut Chunk, prng: &mut Prng, height_map: &HeightMap)
        requires
            old(chunk).wf(),
            height_map.wf(),
            height_map.spec_rect().size.x == 16,
            height_map.spec_rect().size.y == 16,
            spec_heights_within(height_map@, 0, 248),
        ensures
            final(chunk).wf(),
            final(chunk).coords() == old(chunk).coords(),
            (final(chunk)@, final(prng)@) == spec_decorated(
                height_map@,
                INNER_COLUMNS as nat,
                old(chunk)@,
                old(prng)@,
            ),
    {
        let ghost before = chunk@;
        let ghost start = prng@;
        let ghost heights = height_map@;
        let mut x: usize = 2;
        while x < 14
            invariant
                chunk.wf(),
                chunk.coords() == old(chunk).coords(),
                height_map.wf(),
                height_map.spec_rect().size.x == 16,
                height_map.spec_rect().size.y == 16,
                heights == height_map@,
                spec_heights_within(heights, 0, 248),
                2 <= x <= 14,
                (chunk@, prng@) == spec_decorated(heights, ((x - 2) * 12) as nat, before, start),
            decreases 14 - x,
        {
            let mut z: usize = 2;
            while z < 14
                invariant
                    chunk.wf(),
                    chunk.coords() == old(chunk).coords(),
                    height_map.wf(),
                    height_map.spec_rect().size.x == 16,
                    height_map.spec_rect().size.y == 16,
                    heights == height_map@,
                    spec_heights_within(heights, 0, 248),
                    2 <= x < 14,
                    2 <= z <= 14,
                    (chunk@, prng@) == spec_decorated(
                        heights,
                        ((x - 2) * 12 + (z - 2)) as nat,
                        before,
                        start,
                    ),
                decreases 14 - z,
            {
                let ghost done = ((x - 2) * 12 + (z - 2)) as nat;
                let ghost earlier = chunk@;
                let ghost state = prng@;
                let y: usize = height_map.height(x as u8, z as u8) as usize + 1;
                assert(y == spec_column_height(heights, x as int, z as int) + 1);
                assert(heights[x + 16 * z] < 248);
                if y > SEA_LEVEL {
                    if prng.next_per_mille() >= PLANT_THRESHOLD {
                        self.generate_tree(x, y, z, chunk, prng);
                    } else if prng.next_per_mille() >= PLANT_THRESHOLD {
                        chunk.set_block(x, y, z, Block { id: TALL_GRASS });
                    } else if prng.next_per_mille() >= FLOWER_THRESHOLD {
                        chunk.set_block(x, y, z, Block { id: ROSE });
                    } else if prng.next_per_mille() >= FLOWER_THRESHOLD {
                        chunk.set_block(x, y, z, Block { id: DANDELION });
                    }
                }
                assert((chunk@, prng@) == spec_decorate_column(
                    heights,
                    x as int,
                    z as int,
                    earlier,
                    state,
                ));
                z = z + 1;
                assert(spec_decorated(heights, (done + 1) as nat, before, start)
                    == spec_decorate_column(
                    heights,
                    2 + (done as int) / 12,
                    2 + (done as int) % 12,
                    spec_decorated(heights, done, before, start).0,
                    spec_decorated(heights, done, before, start).1,
                ));
            }
            x = x + 1;
        }
    }

    /// Fills each column of `chunk` with water from above its surface up
    /// to the level of the sea.
    fn fill_sea(&self, chunk: &mut Chunk, height_map: &HeightMap)
        requires
            old(chunk).wf(),
            height_map.wf(),
            height_map.spec_rect().size.x == 16,
            height_map.spec_rect().size.y == 16,
            height_map@.len() == 256,
        ensures
            final(chunk).wf(),
            final(chunk).coords() == old(chunk).coords(),
            final(chunk)@ == spec_water(height_map@, old(chunk)@),
    {
        let ghost before = chunk@;
        let ghost heights = height_map@;
        let mut x: usize = 0;
        assert(chunk@ =~= spec_water_prefix(heights, before, 0));
        while x < 16
            invariant
                chunk.wf(),
                chunk.coords() == old(chunk).coords(),
                height_map.wf(),
                height_map.spec_rect().size.x == 16,
                height_map.spec_rect().size.y == 16,
                heights == height_map@,
                heights.len() == 256,
                x <= 16,
                chunk@ == spec_water_prefix(heights, before, x * 16),
            decreases 16 - x,
        {
            let mut z: usize = 0;
            while z < 16
                invariant
                    chunk.wf(),
                    chunk.coords() == old(chunk).coords(),
                    height_map.wf(),
                    height_map.spec_rect().size.x == 16,
                    height_map.spec_rect().size.y == 16,
                    heights == height_map@,
                    heights.len() == 256,
                    x < 16,
                    z <= 16,
                    chunk@ == spec_water_prefix(heights, before, x * 16 + z),
                decreases 16 - z,
            {
                let y: usize = height_map.height(x as u8, z as u8) as usize + 1;
                assert(y == spec_column_height(heights, x as int, z as int) + 1);
                fill_column(chunk, x, z, y, SEA_LEVEL, Block { id: WATER });
                z = z + 1;
                assert(chunk@ =~= spec_water_prefix(heights, before, x * 16 + z)) by {
                    assert forall|i: int| 0 <= i < CHUNK_SIZE implies chunk@[i]
                        == spec_water_prefix(heights, before, x * 16 + z)[i] by {
                        crate::chunk::chunk::lemma_flat_index_surjective(i);
                    }
                }
            }
            x = x + 1;
        }
        assert(chunk@ =~= spec_water(heights, before)) by {
            assert forall|i: int| 0 <= i < CHUNK_SIZE implies chunk@[i] == spec_water(
                heights,
                before,
            )[i] by {
                crate::chunk::chunk::lemma_flat_index_surjective(i);
            }
        }
    }

    /// Generates the chunk at `coords`: the base layers, the strata up to
    /// the heights that the noise of the world gives, the decoration, and
    /// the sea.
    pub fn generate_chunk(&self, coords: ChunkGridCoordinate) -> (chunk: Chunk)
        requires
            coords.in_world(),
        ensures
            chunk.wf(),
            chunk.coords() == coords,
            chunk@ == spec_generated(coords, self.spec_seed()),
    {
        let chunk_seed = self.seed.to_chunk_seed(coords);
        let rect = Rect::new(coords.abs(), 16, 16);

        let mut prng = Prng::new(chunk_seed.0);
        let noise = CombinedNoise::new(
            LayeredNoiseOptions::new(4, 100, 50, 20, self.seed.0),
            LayeredNoiseOptions::new(6, 60, 50, 19, self.seed.0),
            10,
        );
        assert(noise == spec_terrain_noise(self.seed));
        let height_map = HeightMap::new(rect, MIN_HEIGHT..MAX_HEIGHT, noise);
        let ghost heights = height_map@;
        proof {
            assert(heights.len() == 256);
            assert forall|k: int| 0 <= k < 256 implies heights[k] == spec_chunk_heights(
                self.seed,
                coords,
            )[k] by {
                assert(heights[k] == height_map.spec_height(k % 16, k / 16));
            }
            assert(heights =~= spec_chunk_heights(self.seed, coords));
        }

        let mut chunk = Chunk::new(coords);

        self.generate_base(&mut chunk, &mut prng);
        self.generate_strata(&mut chunk, &mut prng, &height_map);
        self.decorate(&mut chunk, &mut prng, &height_map);
        self.fill_sea(&mut chunk, &height_map);

        chunk
    }
}

} // verus!
