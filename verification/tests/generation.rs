use voxel_core::block::Block;
use voxel_core::chunk::chunk::{Chunk, CHUNK_DEPTH, CHUNK_HEIGHT, CHUNK_WIDTH};
use voxel_core::chunk::chunk_grid::ChunkGridCoordinate;
use voxel_core::world::generation::generator::{
    generate_chunk, WorldGenerator, BASE_THICKNESS, BEDROCK, DANDELION, DIRT, GRASS, LEAVES, LOG,
    MAX_HEIGHT, MIN_HEIGHT, ROSE, SAND, SEA_LEVEL, STONE, TALL_GRASS, WATER,
};
use voxel_core::world::generation::height_map::HeightMap;
use voxel_core::world::generation::noise::{
    value, CombinedNoise, LayeredNoise, LayeredNoiseOptions, NoiseFn,
};
use voxel_core::world::generation::random::{Prng, Seed};
use voxel_core::world::generation::seed::{ChunkSeed, WorldSeed};
use voxel_core::world::geometry::{Rect, Vector2};

fn terrain_noise(seed: WorldSeed) -> CombinedNoise {
    CombinedNoise::new(
        LayeredNoiseOptions::new(4, 100, 50, 20, seed.0),
        LayeredNoiseOptions::new(6, 60, 50, 19, seed.0),
        10,
    )
}

fn height_map(coords: ChunkGridCoordinate, seed: WorldSeed) -> HeightMap {
    let rect = Rect::new(coords.abs(), 16, 16);
    HeightMap::new(rect, MIN_HEIGHT..MAX_HEIGHT, terrain_noise(seed))
}

fn same_blocks(a: &Chunk, b: &Chunk) -> bool {
    for x in 0..CHUNK_WIDTH {
        for z in 0..CHUNK_DEPTH {
            for y in 0..CHUNK_HEIGHT {
                if a.block(x, y, z) != b.block(x, y, z) {
                    return false;
                }
            }
        }
    }
    true
}

#[test]
fn chunk_seed_follows_the_pairing() {
    assert_eq!(WorldSeed(Seed(0)).to_chunk_seed(ChunkGridCoordinate::new(0, 0)), ChunkSeed(Seed(0)));
    assert_eq!(WorldSeed(Seed(5)).to_chunk_seed(ChunkGridCoordinate::new(1, 2)), ChunkSeed(Seed(13)));
    assert_eq!(WorldSeed(Seed(7)).to_chunk_seed(ChunkGridCoordinate::new(-1, 0)), ChunkSeed(Seed(7)));
    assert_eq!(WorldSeed(Seed(0)).to_chunk_seed(ChunkGridCoordinate::new(-3, -4)), ChunkSeed(Seed(17)));
    assert_eq!(
        WorldSeed(Seed(123)).to_chunk_seed(ChunkGridCoordinate::new(1000, -1000)),
        ChunkSeed(Seed(4294966419))
    );
    assert_eq!(ChunkSeed::new(&Seed(5), ChunkGridCoordinate::new(1, 2)), ChunkSeed(Seed(13)));
}

#[test]
fn chunk_seed_is_defined_at_the_ends_of_the_axes() {
    let seed = WorldSeed(Seed(u32::MAX));
    assert_eq!(
        seed.to_chunk_seed(ChunkGridCoordinate::new(i64::MAX, i64::MIN)),
        ChunkSeed(Seed(4294967295))
    );
    for x in [i64::MIN, i64::MIN + 1, -1, 0, 1, i64::MAX - 1, i64::MAX] {
        for z in [i64::MIN, i64::MIN + 1, -1, 0, 1, i64::MAX - 1, i64::MAX] {
            let coords = ChunkGridCoordinate::new(x, z);
            assert_eq!(seed.to_chunk_seed(coords), seed.to_chunk_seed(coords));
        }
    }
}

#[test]
fn chunk_seed_is_the_same_each_time() {
    let seed = WorldSeed(Seed(99));
    for x in -8..8 {
        for z in -8..8 {
            let coords = ChunkGridCoordinate::new(x, z);
            assert_eq!(seed.to_chunk_seed(coords), seed.to_chunk_seed(coords));
            assert_eq!(seed.to_chunk_seed(coords), ChunkSeed::new(&Seed(99), coords));
        }
    }
}

#[test]
fn seed_is_the_lower_half_of_its_bits() {
    assert_eq!(Seed::from_bits(0), Seed(0));
    assert_eq!(Seed::from_bits(5), Seed(5));
    assert_eq!(Seed::from_bits(0x1_0000_0005), Seed(5));
    assert_eq!(Seed::from_bits(0xffff_ffff), Seed(u32::MAX));
    assert_eq!(Seed::from_bits(0xabcd_ef01_2345_6789), Seed(0x2345_6789));
    assert_eq!(Seed::from_bits(u64::MAX), Seed(u32::MAX));
}

#[test]
fn fresh_seeds_make_worlds() {
    let a = WorldSeed::new();
    let b = Seed::new();
    assert_eq!(a, a);
    assert_eq!(b, b);
}

#[test]
fn prng_hands_out_its_upper_half() {
    let mut prng = Prng::new(Seed(0));
    assert_eq!(prng.next_u32(), 335903614);
    assert_eq!(prng.next_u32(), 436792849);
    assert_eq!(prng.next_u32(), 2599843874);
    assert_eq!(prng.next_u32(), 1723210473);
    let mut prng = Prng::new(Seed(0));
    assert_eq!(prng.next_per_mille(), 614);
    assert_eq!(prng.next_per_mille(), 849);
    assert_eq!(prng.next_in_range(10..20), 10 + 2599843874 % 10);
    assert_eq!(prng.next_in_range(7..8), 7);
    let mut prng = Prng::new(Seed(42));
    assert_eq!(prng.next_in_range(3..6), 3);
}

#[test]
fn prng_stays_in_range() {
    let mut prng = Prng::new(Seed(2024));
    for _ in 0..1000 {
        assert!(prng.next_per_mille() < 1000);
        let n = prng.next_in_range(4..7);
        assert!((4..7).contains(&n));
    }
}

#[test]
fn noise_on_a_lattice_point_is_the_value_of_the_point() {
    // at the points of the lattice the blend has all its weight on one value,
    // so a lattice of period 1 and one of period 8 agree there
    for cell in -4..4i64 {
        assert_eq!(value(3, 8, cell * 8, 16), value(3, 1, cell, 2));
    }
}

#[test]
fn noise_between_lattice_points_lies_between_their_values() {
    for seed in 0..20u32 {
        let low = value(seed, 4, 0, 0) as i64;
        let high = value(seed, 4, 4, 0) as i64;
        let mid = value(seed, 4, 2, 0) as i64;
        assert_eq!(mid, (low * 2 + high * 2) * 4 / 16);
        let quarter = value(seed, 4, 1, 0) as i64;
        assert_eq!(quarter, (low * 3 + high) * 4 / 16);
    }
}

#[test]
fn noise_handles_negative_positions_and_the_ends_of_the_axes() {
    let noise = terrain_noise(WorldSeed(Seed(1)));
    for x in [i64::MIN, i64::MIN + 1, -101, -100, -1, 0, 1, 99, 100, i64::MAX - 1, i64::MAX] {
        for y in [i64::MIN, -1, 0, 1, i64::MAX] {
            assert_eq!(noise.get(x, y), noise.get(x, y));
        }
    }
    // a lattice cell covers the positions -4..0 as it covers 0..4
    assert_eq!(value(9, 4, -4, 0), value(9, 1, -1, 0));
    assert_eq!(value(9, 4, -8, -4), value(9, 1, -2, -1));
}

#[test]
fn layered_noise_of_one_layer_is_that_layer() {
    let noise = LayeredNoise::new(LayeredNoiseOptions::new(1, 16, 50, 20, Seed(77)));
    for x in -20..20 {
        assert_eq!(noise.get(x, 3 * x), value(77, 16, x, 3 * x));
    }
}

#[test]
fn layered_noise_weighs_its_layers() {
    let noise = LayeredNoise::new(LayeredNoiseOptions::new(3, 16, 50, 20, Seed(5)));
    for x in -20..20i64 {
        let y = 7 - x;
        let first = value(5, 16, x, y) as u64;
        let second = value(6, 8, x, y) as u64;
        let third = value(7, 4, x, y) as u64;
        let expected = (first * 65536 + second * 32768 + third * 16384) / (65536 + 32768 + 16384);
        assert_eq!(noise.get(x, y) as u64, expected);
    }
}

#[test]
fn layered_noise_without_layers_is_zero() {
    let noise = LayeredNoise::new(LayeredNoiseOptions::new(0, 16, 50, 20, Seed(5)));
    assert_eq!(noise.get(12, 34), 0);
}

#[test]
fn combined_noise_bends_the_first_by_the_second() {
    let first = LayeredNoiseOptions::new(2, 32, 50, 20, Seed(1));
    let second = LayeredNoiseOptions::new(3, 24, 50, 15, Seed(2));
    let noise = CombinedNoise::new(first, second, 10);
    for x in -30..30i64 {
        let y = 2 * x + 1;
        let offset = LayeredNoise::new(second).get(x, y) as i64 * 10 / 65536;
        assert!(offset < 10);
        assert_eq!(noise.get(x, y), LayeredNoise::new(first).get(x + offset, y));
    }
}

#[test]
fn height_map_follows_the_noise() {
    let noise = LayeredNoise::new(LayeredNoiseOptions::new(3, 16, 50, 20, Seed(5)));
    let rect = Rect::new(Vector2::new(-8, 24), 5, 3);
    let map = HeightMap::new(rect, 10..30, noise);
    for x in 0..5u8 {
        for z in 0..3u8 {
            let sample = noise.get(-8 + x as i64, 24 + z as i64) as u32;
            let expected = 10 + (sample * 20 / 65536) as u8;
            assert_eq!(map.height(x, z), expected);
            assert!((10..30).contains(&map.height(x, z)));
        }
    }
}

#[test]
fn height_map_of_a_range_without_extent_is_flat() {
    let noise = LayeredNoise::new(LayeredNoiseOptions::new(3, 16, 50, 20, Seed(5)));
    let map = HeightMap::new(Rect::new(Vector2::new(0, 0), 4, 4), 50..50, noise);
    for x in 0..4 {
        for z in 0..4 {
            assert_eq!(map.height(x, z), 50);
        }
    }
}

#[test]
fn height_maps_meet_at_the_edges_of_chunks() {
    let seed = WorldSeed(Seed(11));
    let wide = HeightMap::new(
        Rect::new(Vector2::new(-16, -16), 32, 32),
        MIN_HEIGHT..MAX_HEIGHT,
        terrain_noise(seed),
    );
    for cx in -1..1i64 {
        for cz in -1..1i64 {
            let map = height_map(ChunkGridCoordinate::new(cx, cz), seed);
            for x in 0..16u8 {
                for z in 0..16u8 {
                    let wx = (16 * (cx + 1)) as u8 + x;
                    let wz = (16 * (cz + 1)) as u8 + z;
                    assert_eq!(map.height(x, z), wide.height(wx, wz));
                }
            }
        }
    }
}

#[test]
fn generation_is_the_same_each_time() {
    let seed = WorldSeed(Seed(1234));
    for coords in [
        ChunkGridCoordinate::new(0, 0),
        ChunkGridCoordinate::new(-1, 5),
        ChunkGridCoordinate::new(1000, -1000),
    ] {
        let first = generate_chunk(coords, seed);
        let second = generate_chunk(coords, seed);
        let third = WorldGenerator::new(seed).generate_chunk(coords);
        assert_eq!(first.coords(), coords);
        assert!(same_blocks(&first, &second));
        assert!(same_blocks(&first, &third));
    }
}

#[test]
fn generation_differs_between_chunks_and_seeds() {
    let a = generate_chunk(ChunkGridCoordinate::new(0, 0), WorldSeed(Seed(1)));
    let b = generate_chunk(ChunkGridCoordinate::new(1, 0), WorldSeed(Seed(1)));
    let c = generate_chunk(ChunkGridCoordinate::new(0, 0), WorldSeed(Seed(2)));
    assert!(!same_blocks(&a, &b));
    assert!(!same_blocks(&a, &c));
}

#[test]
fn generated_chunk_has_a_surface_and_a_solid_base() {
    let seed = WorldSeed(Seed(0));
    let coords = ChunkGridCoordinate::new(0, 0);
    let chunk = generate_chunk(coords, seed);
    let heights = height_map(coords, seed);
    for x in 0..CHUNK_WIDTH {
        for z in 0..CHUNK_DEPTH {
            let height = heights.height(x as u8, z as u8) as usize;
            let surface = chunk.block(x, height, z);
            assert!(surface == Block { id: GRASS } || surface == Block { id: SAND });
            for y in 0..BASE_THICKNESS {
                assert_ne!(chunk.block(x, y, z), Block { id: 0 });
            }
        }
    }
}

#[test]
fn generated_chunk_is_layered() {
    let seed = WorldSeed(Seed(31));
    for coords in [ChunkGridCoordinate::new(2, 3), ChunkGridCoordinate::new(-7, 0)] {
        let chunk = generate_chunk(coords, seed);
        let heights = height_map(coords, seed);
        for x in 0..CHUNK_WIDTH {
            for z in 0..CHUNK_DEPTH {
                let height = heights.height(x as u8, z as u8) as usize;
                assert!((40..80).contains(&height));
                assert_eq!(chunk.block(x, 0, z), Block { id: BEDROCK });
                for y in 1..BASE_THICKNESS {
                    let block = chunk.block(x, y, z);
                    assert!(block == Block { id: BEDROCK } || block == Block { id: STONE });
                }
                let mut dirt = 0;
                for y in BASE_THICKNESS..height {
                    let block = chunk.block(x, y, z);
                    assert!(block == Block { id: STONE } || block == Block { id: DIRT });
                    if block == (Block { id: DIRT }) {
                        dirt += 1;
                        assert!(height - y <= 5);
                    }
                }
                assert!((3..=5).contains(&dirt));
                for y in height + 1..SEA_LEVEL {
                    assert_eq!(chunk.block(x, y, z), Block { id: WATER });
                }
                for y in 100..CHUNK_HEIGHT {
                    assert_eq!(chunk.block(x, y, z), Block { id: 0 });
                }
            }
        }
    }
}

#[test]
fn decoration_stands_on_land_inside_the_chunk() {
    let seed = WorldSeed(Seed(8));
    let mut decorated = 0;
    for cx in 0..6 {
        let coords = ChunkGridCoordinate::new(cx, 1);
        let chunk = generate_chunk(coords, seed);
        let heights = height_map(coords, seed);
        for x in 0..CHUNK_WIDTH {
            for z in 0..CHUNK_DEPTH {
                let height = heights.height(x as u8, z as u8) as usize;
                let above = chunk.block(x, height + 1, z);
                let inner = (2..14).contains(&x) && (2..14).contains(&z);
                if above == (Block { id: LOG })
                    || above == (Block { id: TALL_GRASS })
                    || above == (Block { id: ROSE })
                    || above == (Block { id: DANDELION })
                {
                    assert!(inner);
                    assert!(height + 1 > SEA_LEVEL);
                    decorated += 1;
                }
                if height + 1 <= SEA_LEVEL && height + 1 < SEA_LEVEL {
                    assert_eq!(above, Block { id: WATER });
                }
            }
        }
    }
    assert!(decorated > 0);
}

#[test]
fn tree_has_a_trunk_and_a_crown() {
    let generator = WorldGenerator::new(WorldSeed(Seed(0)));
    let mut chunk = Chunk::new(ChunkGridCoordinate::new(0, 0));
    // the first number of the stream of seed 42 is 2440530669: the least trunk
    let mut prng = Prng::new(Seed(42));
    generator.generate_tree(7, 64, 8, &mut chunk, &mut prng);
    let trunk = 4 + 2440530669usize % 3;
    assert_eq!(trunk, 4);
    // the tree took one number from the stream
    assert_eq!(prng.next_u32(), 968358053);
    for y in 64..64 + trunk {
        assert_eq!(chunk.block(7, y, 8), Block { id: LOG });
    }
    let top = 64 + trunk;
    let leaves = Block { id: LEAVES };
    let air = Block { id: 0 };
    for x in 0..CHUNK_WIDTH {
        for z in 0..CHUNK_DEPTH {
            let dx = (x as i64 - 7).abs();
            let dz = (z as i64 - 8).abs();
            for y in 0..CHUNK_HEIGHT {
                let block = chunk.block(x, y, z);
                let expected = if dx == 0 && dz == 0 && (64..top).contains(&y) {
                    Block { id: LOG }
                } else if y == top + 1 && dx + dz <= 1 {
                    leaves
                } else if y == top && dx <= 1 && dz <= 1 {
                    leaves
                } else if (y == top - 1 || y == top - 2) && dx <= 2 && dz <= 2 {
                    leaves
                } else {
                    air
                };
                assert_eq!(block, expected);
            }
        }
    }
}

#[test]
fn tree_fits_at_the_edge_of_the_inner_columns() {
    let generator = WorldGenerator::new(WorldSeed(Seed(0)));
    let mut chunk = Chunk::new(ChunkGridCoordinate::new(0, 0));
    let mut prng = Prng::new(Seed(1));
    generator.generate_tree(2, 0, 2, &mut chunk, &mut prng);
    generator.generate_tree(13, 248, 13, &mut chunk, &mut prng);
    assert_eq!(chunk.block(2, 0, 2), Block { id: LOG });
    assert_eq!(chunk.block(13, 248, 13), Block { id: LOG });
    assert_eq!(chunk.block(15, 248 + 3, 15), Block { id: LEAVES });
}

#[test]
fn noise_has_its_values() {
    assert_eq!(value(0, 1, 0, 0), 0);
    assert_eq!(value(1, 1, 0, 0), 29130);
    assert_eq!(value(7, 1, -1, 5), 46597);
    assert_eq!(value(7, 16, 5, 9), 36732);
    assert_eq!(value(123, 100, -250, 777), 31659);
    assert_eq!(value(4294967295, 60, 9223372036854775807, i64::MIN), 23524);
    assert_eq!(value(5, 4, -3, -3), 31104);
}

#[test]
fn generated_chunk_follows_its_stream() {
    let seed = WorldSeed(Seed(77));
    let coords = ChunkGridCoordinate::new(-3, 12);
    let chunk = generate_chunk(coords, seed);
    let heights = height_map(coords, seed);
    let mut prng = Prng::new(seed.to_chunk_seed(coords).0);
    // the base: one number for each block, layer by layer
    for y in 0..BASE_THICKNESS {
        for x in 0..CHUNK_WIDTH {
            for z in 0..CHUNK_DEPTH {
                let drawn = prng.next_per_mille() as usize;
                let expected = if drawn < 1000 - 200 * y { BEDROCK } else { STONE };
                assert_eq!(chunk.block(x, y, z), Block { id: expected });
            }
        }
    }
    // the strata: one number for each column
    for x in 0..CHUNK_WIDTH {
        for z in 0..CHUNK_DEPTH {
            let height = heights.height(x as u8, z as u8) as usize;
            let thickness = prng.next_in_range(3..6);
            for y in BASE_THICKNESS..height - thickness {
                assert_eq!(chunk.block(x, y, z), Block { id: STONE });
            }
            for y in height - thickness..height {
                assert_eq!(chunk.block(x, y, z), Block { id: DIRT });
            }
        }
    }
    // the decoration: up to four numbers for each inner column above the sea,
    // and one more for the trunk of a tree
    for x in 2..CHUNK_WIDTH - 2 {
        for z in 2..CHUNK_DEPTH - 2 {
            let y = heights.height(x as u8, z as u8) as usize + 1;
            if y <= SEA_LEVEL {
                continue;
            }
            if prng.next_per_mille() >= 960 {
                let trunk = prng.next_in_range(4..7);
                for level in y..y + trunk {
                    assert_eq!(chunk.block(x, level, z), Block { id: LOG });
                }
            } else if prng.next_per_mille() >= 960 {
                let found = chunk.block(x, y, z);
                assert!(found == Block { id: TALL_GRASS } || found == Block { id: LEAVES });
            } else if prng.next_per_mille() >= 990 {
                let found = chunk.block(x, y, z);
                assert!(found == Block { id: ROSE } || found == Block { id: LEAVES });
            } else if prng.next_per_mille() >= 990 {
                let found = chunk.block(x, y, z);
                assert!(found == Block { id: DANDELION } || found == Block { id: LEAVES });
            }
        }
    }
}
