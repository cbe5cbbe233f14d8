use std::collections::HashMap;
use std::collections::HashSet;
use voxel_core::block::{Block, BlockProperties, BlockRegistry, BlockTexture};
use voxel_core::chunk::chunk::Chunk;
use voxel_core::chunk::chunk_grid::ChunkGridCoordinate;
use voxel_core::chunk::grid::{key, unkey, ChunkGrid, CoordinateSet};
use voxel_core::world::generation::generator::generate_chunk;
use voxel_core::world::generation::random::Seed;
use voxel_core::world::generation::seed::WorldSeed;
use voxel_core::world::streaming::{ring_scan, searchable, LOAD_DISTANCE};
use voxel_core::world::world::World;
use voxel_core::world::world_coordinate::WorldCoordinate;

fn texture(n: u8) -> BlockTexture {
    BlockTexture { front: n, back: n + 1, left: n + 2, right: n + 3, top: n + 4, bottom: n + 5 }
}

#[test]
fn registry_looks_up_properties() {
    let mut data = HashMap::new();
    data.insert(1, BlockProperties { opaque: true, texture: texture(10) });
    data.insert(9, BlockProperties { opaque: false, texture: texture(20) });
    let registry = BlockRegistry::new(data);
    assert_eq!(registry.properties(1), Some(&BlockProperties { opaque: true, texture: texture(10) }));
    assert_eq!(registry.properties(9).map(|p| p.texture.top), Some(24));
    assert_eq!(registry.properties(2), None);
    assert!(registry.is_opaque(1));
    assert!(!registry.is_opaque(9));
    let copy = registry.clone();
    assert_eq!(copy.properties(1), registry.properties(1));
    assert_eq!(copy.properties(0), None);
}

#[test]
fn registry_takes_unknown_blocks_for_transparent() {
    let registry = BlockRegistry::new(HashMap::new());
    for id in 0..=255u8 {
        assert!(!registry.is_opaque(id));
        assert_eq!(registry.properties(id), None);
    }
}

#[test]
fn keys_lead_back_to_coordinates() {
    let ends = [i64::MIN, i64::MIN + 1, -1, 0, 1, i64::MAX - 1, i64::MAX];
    let mut seen = HashSet::new();
    for x in ends {
        for z in ends {
            let coords = ChunkGridCoordinate::new(x, z);
            assert_eq!(unkey(key(coords)), coords);
            assert!(seen.insert(key(coords)));
        }
    }
    assert_eq!(key(ChunkGridCoordinate::new(i64::MIN, i64::MIN)), 0);
    assert_eq!(key(ChunkGridCoordinate::new(i64::MAX, i64::MAX)), u128::MAX);
    assert_eq!(key(ChunkGridCoordinate::new(0, 0)), (1u128 << 127) + (1u128 << 63));
    assert_eq!(unkey(1), ChunkGridCoordinate::new(i64::MIN, i64::MIN + 1));
}

#[test]
fn grid_files_chunks_under_their_coordinates() {
    let mut grid = ChunkGrid::new();
    assert_eq!(grid.len(), 0);
    let a = ChunkGridCoordinate::new(1, -1);
    let b = ChunkGridCoordinate::new(-1, 1);
    let mut chunk = Chunk::new(a);
    chunk.set_block(0, 0, 0, Block { id: 5 });
    grid.insert(chunk);
    grid.insert(Chunk::new(b));
    assert_eq!(grid.len(), 2);
    assert!(grid.contains_key(&a));
    assert!(grid.contains_key(&b));
    assert!(!grid.contains_key(&ChunkGridCoordinate::new(1, 1)));
    assert_eq!(grid.get(&a).map(|c| c.block(0, 0, 0)), Some(Block { id: 5 }));
    assert_eq!(grid.get(&a).map(|c| c.coords()), Some(a));
    assert!(grid.get(&ChunkGridCoordinate::new(0, 0)).is_none());
    // a second chunk at the same coordinate takes the place of the first
    grid.insert(Chunk::new(a));
    assert_eq!(grid.len(), 2);
    assert_eq!(grid.get(&a).map(|c| c.block(0, 0, 0)), Some(Block { id: 0 }));
    let mut listed = grid.coordinates();
    listed.sort_by_key(|c| c.x);
    assert_eq!(listed, vec![b, a]);
    assert_eq!(grid.remove(&b).map(|c| c.coords()), Some(b));
    assert!(grid.remove(&b).is_none());
    assert_eq!(grid.len(), 1);
}

#[test]
fn grid_retains_what_is_kept() {
    let mut grid = ChunkGrid::new();
    for x in 0..10 {
        grid.insert(Chunk::new(ChunkGridCoordinate::new(x, 0)));
    }
    let mut keep = CoordinateSet::new();
    assert!(keep.insert(ChunkGridCoordinate::new(2, 0)));
    assert!(!keep.insert(ChunkGridCoordinate::new(2, 0)));
    assert!(keep.insert(ChunkGridCoordinate::new(7, 0)));
    assert!(keep.insert(ChunkGridCoordinate::new(70, 0)));
    assert!(keep.insert(ChunkGridCoordinate::new(3, 0)));
    assert!(keep.remove(&ChunkGridCoordinate::new(3, 0)));
    assert!(!keep.remove(&ChunkGridCoordinate::new(3, 0)));
    assert!(keep.contains(&ChunkGridCoordinate::new(7, 0)));
    assert!(!keep.contains(&ChunkGridCoordinate::new(3, 0)));
    grid.retain(&keep);
    assert_eq!(grid.len(), 2);
    assert!(grid.contains_key(&ChunkGridCoordinate::new(2, 0)));
    assert!(grid.contains_key(&ChunkGridCoordinate::new(7, 0)));
    assert!(!grid.contains_key(&ChunkGridCoordinate::new(70, 0)));
    grid.retain(&CoordinateSet::new());
    assert_eq!(grid.len(), 0);
}

#[test]
fn search_goes_ring_by_ring() {
    let scan = ring_scan(ChunkGridCoordinate::new(10, -10));
    assert_eq!(scan.len(), 1 + 9 + 25 + 49 + 81 + 121);
    assert_eq!(scan[0], ChunkGridCoordinate::new(10, -10));
    assert_eq!(scan[1], ChunkGridCoordinate::new(9, -11));
    assert_eq!(scan[2], ChunkGridCoordinate::new(9, -10));
    assert_eq!(scan[3], ChunkGridCoordinate::new(9, -9));
    assert_eq!(scan[4], ChunkGridCoordinate::new(10, -11));
    assert_eq!(scan[9], ChunkGridCoordinate::new(11, -9));
    assert_eq!(scan[10], ChunkGridCoordinate::new(8, -12));
    assert_eq!(scan[scan.len() - 1], ChunkGridCoordinate::new(15, -5));
    let distinct: HashSet<(i64, i64)> = scan.iter().map(|c| (c.x, c.z)).collect();
    assert_eq!(distinct.len(), 121);
    assert!(scan.iter().all(|c| (c.x - 10).abs() <= 5 && (c.z + 10).abs() <= 5));
    assert_eq!(LOAD_DISTANCE, 4);
}

#[test]
fn search_stays_inside_the_world() {
    assert!(searchable(ChunkGridCoordinate::new(0, 0)));
    assert!(searchable(ChunkGridCoordinate::new(i64::MAX / 16 - 5, i64::MIN / 16 + 5)));
    assert!(!searchable(ChunkGridCoordinate::new(i64::MAX / 16 - 4, 0)));
    assert!(!searchable(ChunkGridCoordinate::new(0, i64::MIN / 16 + 4)));
    assert!(!searchable(ChunkGridCoordinate::new(i64::MAX, i64::MAX)));
}

#[test]
fn load_chunk_asks_once() {
    let mut world = World::from_seed(Seed(3));
    assert_eq!(world.seed(), WorldSeed(Seed(3)));
    let coords = ChunkGridCoordinate::new(4, 4);
    assert!(!world.is_loading(&coords));
    assert!(world.load_chunk(coords));
    assert!(world.is_loading(&coords));
    assert!(!world.load_chunk(coords));
    assert!(!world.chunks().contains_key(&coords));
    world.receive(generate_chunk(coords, world.seed()));
    assert!(!world.is_loading(&coords));
    assert!(world.chunks().contains_key(&coords));
    assert!(!world.load_chunk(coords));
    assert!(!world.is_loading(&coords));
}

#[test]
fn fresh_world_is_empty() {
    let world = World::new();
    assert_eq!(world.chunks().len(), 0);
    assert!(!world.is_loading(&ChunkGridCoordinate::new(0, 0)));
    assert!(world.get_chunk_group(ChunkGridCoordinate::new(0, 0)).is_none());
}

/// Runs ticks, generating what each asks for, until a tick asks for nothing
/// and takes nothing in. Hands back the jobs of all ticks in order.
fn settle(world: &mut World, positions: &Vec<WorldCoordinate>) -> Vec<ChunkGridCoordinate> {
    let mut all = Vec::new();
    let mut completed: Vec<Chunk> = Vec::new();
    for _ in 0..1000 {
        let received = completed.len();
        let jobs = world.load_around(positions.clone(), completed);
        for job in jobs.iter() {
            assert!(world.is_loading(job));
            assert!(!world.chunks().contains_key(job));
        }
        for coords in world.chunks().coordinates() {
            assert!(!world.is_loading(&coords));
        }
        assert!(jobs.len() <= 2 * (received + 1) * positions.len());
        if jobs.is_empty() && received == 0 {
            return all;
        }
        completed = jobs.iter().map(|c| generate_chunk(*c, world.seed())).collect();
        all.extend(jobs);
    }
    panic!("streaming did not settle");
}

#[test]
fn first_tick_asks_for_two_chunks() {
    let mut world = World::from_seed(Seed(0));
    let jobs = world.load_around(vec![WorldCoordinate::new(0, 0, 0)], Vec::new());
    assert_eq!(jobs, vec![ChunkGridCoordinate::new(0, 0), ChunkGridCoordinate::new(-1, -1)]);
    assert!(world.is_loading(&ChunkGridCoordinate::new(0, 0)));
    assert!(world.is_loading(&ChunkGridCoordinate::new(-1, -1)));
    // while nothing comes back, the same two chunks are marked and nothing new is asked for
    let again = world.load_around(vec![WorldCoordinate::new(0, 0, 0)], Vec::new());
    assert!(again.is_empty());
    assert_eq!(world.chunks().len(), 0);
}

#[test]
fn second_tick_asks_for_more() {
    let mut world = World::from_seed(Seed(0));
    let positions = vec![WorldCoordinate::new(0, 0, 0)];
    let jobs = world.load_around(positions.clone(), Vec::new());
    let completed: Vec<Chunk> = jobs.iter().map(|c| generate_chunk(*c, world.seed())).collect();
    let jobs = world.load_around(positions, completed);
    assert_eq!(world.chunks().len(), 2);
    // two chunks came back: each search may mark six chunks that are not
    // resident, in the order of the search, and a chunk that is met again
    // counts again
    assert_eq!(
        jobs,
        vec![
            ChunkGridCoordinate::new(-1, 0),
            ChunkGridCoordinate::new(-1, 1),
            ChunkGridCoordinate::new(0, -1),
            ChunkGridCoordinate::new(0, 1),
            ChunkGridCoordinate::new(1, -1),
            ChunkGridCoordinate::new(1, 0),
        ]
    );
}

#[test]
fn observer_at_the_origin_loads_its_surroundings() {
    let mut world = World::from_seed(Seed(0));
    let positions = vec![WorldCoordinate::new(0, 0, 0)];
    let jobs = settle(&mut world, &positions);
    assert_eq!(jobs.len(), 121);
    assert_eq!(world.chunks().len(), 121);
    for x in -8..=8 {
        for z in -8..=8 {
            let coords = ChunkGridCoordinate::new(x, z);
            let near = x.abs() <= LOAD_DISTANCE as i64 + 1 && z.abs() <= LOAD_DISTANCE as i64 + 1;
            assert_eq!(world.chunks().contains_key(&coords), near);
            assert!(!world.is_loading(&coords));
        }
    }
    let group = world.get_chunk_group(ChunkGridCoordinate::new(0, 0));
    assert!(group.is_some());
    let group = group.unwrap();
    assert_eq!(group.current.coords(), ChunkGridCoordinate::new(0, 0));
    assert_eq!(group.north.coords(), ChunkGridCoordinate::new(0, 1));
    assert_eq!(group.south.coords(), ChunkGridCoordinate::new(0, -1));
    assert_eq!(group.east.coords(), ChunkGridCoordinate::new(-1, 0));
    assert_eq!(group.west.coords(), ChunkGridCoordinate::new(1, 0));
    let expected = generate_chunk(ChunkGridCoordinate::new(1, 0), world.seed());
    for y in 0..100 {
        assert_eq!(group.get_block(16, y, 3), Some(expected.block(0, y as usize, 3)));
    }
    // at the edge of what is resident a neighbour is missing
    assert!(world.get_chunk_group(ChunkGridCoordinate::new(5, 0)).is_none());
    assert!(world.get_chunk_group(ChunkGridCoordinate::new(4, 4)).is_some());
    assert!(world.get_chunk_group(ChunkGridCoordinate::new(6, 0)).is_none());
}

#[test]
fn chunk_group_needs_all_four_neighbours() {
    let mut world = World::from_seed(Seed(6));
    let centre = ChunkGridCoordinate::new(0, 0);
    let parts = [centre, centre.north(), centre.south(), centre.east()];
    for coords in parts {
        world.receive(Chunk::new(coords));
        assert!(world.get_chunk_group(centre).is_none());
    }
    world.receive(Chunk::new(centre.west()));
    assert!(world.get_chunk_group(centre).is_some());
    assert!(world.get_chunk_group(centre.west()).is_none());
    assert!(world.get_chunk_group(ChunkGridCoordinate::new(i64::MAX, 0)).is_none());
    assert!(world.get_chunk_group(ChunkGridCoordinate::new(0, i64::MIN)).is_none());
}

#[test]
fn observer_that_moves_away_leaves_nothing_behind() {
    let mut world = World::from_seed(Seed(0));
    let home = vec![WorldCoordinate::new(0, 0, 0)];
    let first = settle(&mut world, &home);
    assert_eq!(world.chunks().len(), 121);

    let away = vec![WorldCoordinate::new(16 * 1000, 0, 16 * 1000)];
    let jobs = world.load_around(away.clone(), Vec::new());
    assert_eq!(world.chunks().len(), 0);
    assert_eq!(jobs, vec![ChunkGridCoordinate::new(1000, 1000), ChunkGridCoordinate::new(999, 999)]);
    let completed: Vec<Chunk> = jobs.iter().map(|c| generate_chunk(*c, world.seed())).collect();
    world.load_around(away, completed);
    assert!(world.chunks().contains_key(&ChunkGridCoordinate::new(1000, 1000)));
    assert!(!world.chunks().contains_key(&ChunkGridCoordinate::new(0, 0)));

    // back home the chunks are asked for again
    let again = settle(&mut world, &home);
    let first: HashSet<(i64, i64)> = first.iter().map(|c| (c.x, c.z)).collect();
    let again: HashSet<(i64, i64)> = again.iter().map(|c| (c.x, c.z)).collect();
    assert_eq!(first, again);
    assert_eq!(world.chunks().len(), 121);
    assert!(!world.chunks().contains_key(&ChunkGridCoordinate::new(1000, 1000)));
}

#[test]
fn observer_that_moves_a_little_keeps_what_is_near() {
    let mut world = World::from_seed(Seed(0));
    settle(&mut world, &vec![WorldCoordinate::new(0, 0, 0)]);
    // three chunks along x: the chunks with x below -2 fall out of reach
    let moved = vec![WorldCoordinate::new(16 * 3, 0, 0)];
    let jobs = settle(&mut world, &moved);
    assert_eq!(jobs.len(), 3 * 11);
    assert!(jobs.iter().all(|c| c.x > 5 && c.x <= 8));
    assert_eq!(world.chunks().len(), 121);
    assert!(!world.chunks().contains_key(&ChunkGridCoordinate::new(-3, 0)));
    assert!(world.chunks().contains_key(&ChunkGridCoordinate::new(-2, 0)));
    assert!(world.chunks().contains_key(&ChunkGridCoordinate::new(8, 5)));
}

#[test]
fn two_observers_keep_both_surroundings() {
    let mut world = World::from_seed(Seed(0));
    let positions = vec![WorldCoordinate::new(0, 0, 0), WorldCoordinate::new(16 * 8, 50, 0)];
    let jobs = settle(&mut world, &positions);
    // the squares around the chunks (0, 0) and (8, 0) share three columns
    assert_eq!(jobs.len(), 2 * 121 - 3 * 11);
    assert_eq!(world.chunks().len(), 2 * 121 - 3 * 11);
    let unique: HashSet<(i64, i64)> = jobs.iter().map(|c| (c.x, c.z)).collect();
    assert_eq!(unique.len(), jobs.len());
    assert!(world.chunks().contains_key(&ChunkGridCoordinate::new(-5, -5)));
    assert!(world.chunks().contains_key(&ChunkGridCoordinate::new(13, 5)));
    assert!(!world.chunks().contains_key(&ChunkGridCoordinate::new(14, 0)));
}

#[test]
fn without_observers_everything_is_evicted() {
    let mut world = World::from_seed(Seed(0));
    settle(&mut world, &vec![WorldCoordinate::new(5, 5, 5)]);
    let jobs = world.load_around(Vec::new(), Vec::new());
    assert!(jobs.is_empty());
    assert_eq!(world.chunks().len(), 0);
}

#[test]
fn chunk_that_comes_back_unwanted_is_evicted() {
    let mut world = World::from_seed(Seed(0));
    let jobs = world.load_around(vec![WorldCoordinate::new(0, 0, 0)], Vec::new());
    let completed: Vec<Chunk> = jobs.iter().map(|c| generate_chunk(*c, world.seed())).collect();
    // the observer has left before the chunks come back
    let jobs = world.load_around(vec![WorldCoordinate::new(16 * 100, 0, 0)], completed);
    assert_eq!(world.chunks().len(), 0);
    assert!(!world.is_loading(&ChunkGridCoordinate::new(0, 0)));
    // six chunks are marked, of which the first is met a second time
    assert_eq!(
        jobs,
        vec![
            ChunkGridCoordinate::new(100, 0),
            ChunkGridCoordinate::new(99, -1),
            ChunkGridCoordinate::new(99, 0),
            ChunkGridCoordinate::new(99, 1),
            ChunkGridCoordinate::new(100, -1),
        ]
    );
}
