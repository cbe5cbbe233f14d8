use voxel_core::chunk::chunk_grid::ChunkGridCoordinate;
use voxel_core::world::geometry::Vector2;
use voxel_core::world::world_coordinate::WorldCoordinate;

#[test]
fn from_world_coordinate_rounds_down() {
    let at = |x: i64, z: i64| ChunkGridCoordinate::from_world_coordinate(WorldCoordinate::new(x, 70, z));
    assert_eq!(at(0, 0), ChunkGridCoordinate::new(0, 0));
    assert_eq!(at(15, 15), ChunkGridCoordinate::new(0, 0));
    assert_eq!(at(16, 31), ChunkGridCoordinate::new(1, 1));
    assert_eq!(at(32, 47), ChunkGridCoordinate::new(2, 2));
    assert_eq!(at(-1, -16), ChunkGridCoordinate::new(-1, -1));
    assert_eq!(at(-17, -32), ChunkGridCoordinate::new(-2, -2));
    assert_eq!(at(-33, 100), ChunkGridCoordinate::new(-3, 6));
    assert_eq!(at(i64::MAX, i64::MIN), ChunkGridCoordinate::new(i64::MAX / 16, i64::MIN / 16));
    assert_eq!(at(i64::MIN + 1, i64::MAX - 16), ChunkGridCoordinate::new(i64::MIN / 16, i64::MAX / 16 - 1));
}

#[test]
fn from_world_coordinate_ignores_height() {
    let low = ChunkGridCoordinate::from_world_coordinate(WorldCoordinate::new(40, i64::MIN, -40));
    let high = ChunkGridCoordinate::from_world_coordinate(WorldCoordinate::new(40, i64::MAX, -40));
    assert_eq!(low, ChunkGridCoordinate::new(2, -3));
    assert_eq!(high, low);
}

#[test]
fn chunk_origin_maps_back_to_the_chunk() {
    for x in -20..20 {
        for z in -20..20 {
            let coords = ChunkGridCoordinate::new(x, z);
            let origin = coords.abs();
            assert_eq!(origin, Vector2::new(16 * x, 16 * z));
            let position = WorldCoordinate::new(origin.x, 0, origin.y);
            assert_eq!(ChunkGridCoordinate::from_world_coordinate(position), coords);
            let corner = WorldCoordinate::new(origin.x + 15, 0, origin.y + 15);
            assert_eq!(ChunkGridCoordinate::from_world_coordinate(corner), coords);
        }
    }
}

#[test]
fn manhattan_distance_adds_the_axes() {
    let a = ChunkGridCoordinate::new(1, 2);
    assert_eq!(a.manhattan_distance(a), Some(0));
    assert_eq!(a.manhattan_distance(ChunkGridCoordinate::new(4, 6)), Some(7));
    assert_eq!(a.manhattan_distance(ChunkGridCoordinate::new(-4, -6)), Some(13));
    assert_eq!(ChunkGridCoordinate::new(-4, -6).manhattan_distance(a), Some(13));
    assert_eq!(
        ChunkGridCoordinate::new(i64::MIN, 0).manhattan_distance(ChunkGridCoordinate::new(0, 0)),
        Some(1usize << 63)
    );
}

#[test]
fn manhattan_distance_fails_beyond_usize() {
    let low = ChunkGridCoordinate::new(i64::MIN, i64::MIN);
    let high = ChunkGridCoordinate::new(i64::MAX, i64::MAX);
    assert_eq!(low.manhattan_distance(high), None);
    assert_eq!(high.manhattan_distance(low), None);
    let far = ChunkGridCoordinate::new(i64::MAX, 0);
    assert_eq!(ChunkGridCoordinate::new(i64::MIN, 0).manhattan_distance(far), Some(usize::MAX));
    assert_eq!(ChunkGridCoordinate::new(i64::MIN, -1).manhattan_distance(far), None);
}

#[test]
fn directions_step_along_one_axis() {
    let c = ChunkGridCoordinate::new(10, -10);
    assert_eq!(c.north(), ChunkGridCoordinate::new(10, -9));
    assert_eq!(c.south(), ChunkGridCoordinate::new(10, -11));
    assert_eq!(c.east(), ChunkGridCoordinate::new(9, -10));
    assert_eq!(c.west(), ChunkGridCoordinate::new(11, -10));
    assert_eq!(c.north().south(), c);
    assert_eq!(c.east().west(), c);
}

#[test]
fn neighbours_are_one_step_apart() {
    let c = ChunkGridCoordinate::new(0, 0);
    for x in -3..=3i64 {
        for z in -3..=3i64 {
            let other = ChunkGridCoordinate::new(x, z);
            let expected = x.abs() + z.abs() == 1;
            assert_eq!(ChunkGridCoordinate::are_neighbours(&c, &other), expected);
            assert_eq!(ChunkGridCoordinate::are_neighbours(&other, &c), expected);
            assert_eq!(c.manhattan_distance(other) == Some(1), expected);
        }
    }
    assert!(ChunkGridCoordinate::are_neighbours(&c, &c.north()));
    assert!(ChunkGridCoordinate::are_neighbours(&c, &c.south()));
    assert!(ChunkGridCoordinate::are_neighbours(&c, &c.east()));
    assert!(ChunkGridCoordinate::are_neighbours(&c, &c.west()));
    assert!(!ChunkGridCoordinate::are_neighbours(&c, &c));
}

#[test]
fn neighbours_at_the_ends_of_the_axes() {
    let low = ChunkGridCoordinate::new(i64::MIN, 0);
    let high = ChunkGridCoordinate::new(i64::MAX, 0);
    assert!(!ChunkGridCoordinate::are_neighbours(&low, &high));
    assert!(ChunkGridCoordinate::are_neighbours(&low, &ChunkGridCoordinate::new(i64::MIN + 1, 0)));
    assert!(ChunkGridCoordinate::are_neighbours(&ChunkGridCoordinate::new(i64::MAX - 1, 0), &high));
}

#[test]
fn default_coordinate_is_the_origin() {
    assert_eq!(ChunkGridCoordinate::default(), ChunkGridCoordinate::new(0, 0));
}
