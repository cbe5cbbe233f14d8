use std::collections::HashMap;
use voxel_core::block::{Block, BlockProperties, BlockRegistry, BlockTexture};
use voxel_core::chunk::chunk::Chunk;
use voxel_core::chunk::chunk_grid::ChunkGridCoordinate;
use voxel_core::chunk::chunk_group::ChunkGroup;
use voxel_core::render::chunk_mesh::{face_indices, vertex_info, visible_faces, Face, Side};

fn texture(n: u8) -> BlockTexture {
    BlockTexture { front: n, back: n + 1, left: n + 2, right: n + 3, top: n + 4, bottom: n + 5 }
}

fn registry() -> BlockRegistry {
    let mut data = HashMap::new();
    data.insert(1, BlockProperties { opaque: true, texture: texture(10) });
    data.insert(9, BlockProperties { opaque: false, texture: texture(20) });
    BlockRegistry::new(data)
}

fn empty() -> Chunk {
    Chunk::new(ChunkGridCoordinate::new(0, 0))
}

fn around(current: Chunk) -> ChunkGroup {
    ChunkGroup::new(current, empty(), empty(), empty(), empty())
}

#[test]
fn vertex_info_packs_texture_light_and_corner() {
    assert_eq!(vertex_info(0, 0, 0), 0);
    assert_eq!(vertex_info(1, 0, 0), 16);
    assert_eq!(vertex_info(0, 1, 0), 4);
    assert_eq!(vertex_info(0, 0, 1), 1);
    assert_eq!(vertex_info(255, 3, 3), 255 * 16 + 15);
    assert_eq!(vertex_info(7, 2, 1), 7 * 16 + 2 * 4 + 1);
    // light and corner keep their two lowest bits
    assert_eq!(vertex_info(7, 6, 5), 7 * 16 + 2 * 4 + 1);
    assert_eq!(vertex_info(7, 255, 255), 7 * 16 + 15);
}

#[test]
fn face_indices_make_two_triangles() {
    assert_eq!(face_indices(0), [0, 3, 1, 1, 3, 2]);
    assert_eq!(face_indices(8), [8, 11, 9, 9, 11, 10]);
    assert_eq!(face_indices(u32::MAX - 3), [u32::MAX - 3, u32::MAX, u32::MAX - 2, u32::MAX - 2, u32::MAX, u32::MAX - 1]);
}

#[test]
fn sides_have_their_light() {
    assert_eq!(Side::Front.light(), 2);
    assert_eq!(Side::Back.light(), 2);
    assert_eq!(Side::Left.light(), 1);
    assert_eq!(Side::Right.light(), 1);
    assert_eq!(Side::Top.light(), 3);
    assert_eq!(Side::Bottom.light(), 0);
    let t = texture(40);
    assert_eq!(Side::Front.texture(&t), 40);
    assert_eq!(Side::Back.texture(&t), 41);
    assert_eq!(Side::Left.texture(&t), 42);
    assert_eq!(Side::Right.texture(&t), 43);
    assert_eq!(Side::Top.texture(&t), 44);
    assert_eq!(Side::Bottom.texture(&t), 45);
}

#[test]
fn empty_chunk_has_no_faces() {
    assert_eq!(visible_faces(&around(empty()), &registry()), vec![]);
}

#[test]
fn lone_block_shows_six_faces() {
    let mut chunk = empty();
    chunk.set_block(3, 4, 5, Block { id: 1 });
    let faces = visible_faces(&around(chunk), &registry());
    let face = |side: Side, texture: u8| Face { x: 3, y: 4, z: 5, side, texture };
    assert_eq!(
        faces,
        vec![
            face(Side::Front, 10),
            face(Side::Back, 11),
            face(Side::Left, 12),
            face(Side::Right, 13),
            face(Side::Top, 14),
            face(Side::Bottom, 15),
        ]
    );
}

#[test]
fn opaque_neighbours_hide_faces() {
    let mut chunk = empty();
    chunk.set_block(3, 4, 5, Block { id: 1 });
    chunk.set_block(4, 4, 5, Block { id: 1 });
    let faces = visible_faces(&around(chunk), &registry());
    assert_eq!(faces.len(), 10);
    assert!(!faces.contains(&Face { x: 3, y: 4, z: 5, side: Side::Right, texture: 13 }));
    assert!(!faces.contains(&Face { x: 4, y: 4, z: 5, side: Side::Left, texture: 12 }));
    assert!(faces.contains(&Face { x: 3, y: 4, z: 5, side: Side::Left, texture: 12 }));
    // the blocks come along z, then y, then x
    assert!(faces[..5].iter().all(|f| f.x == 3));
    assert!(faces[5..].iter().all(|f| f.x == 4));
}

#[test]
fn transparent_and_unknown_neighbours_hide_nothing() {
    let mut chunk = empty();
    chunk.set_block(3, 4, 5, Block { id: 1 });
    chunk.set_block(4, 4, 5, Block { id: 9 });
    chunk.set_block(3, 5, 5, Block { id: 77 });
    let faces = visible_faces(&around(chunk), &registry());
    // the stone shows all six; the water hides its side against the stone;
    // the unknown block is not drawn
    assert_eq!(faces.iter().filter(|f| (f.x, f.y, f.z) == (3, 4, 5)).count(), 6);
    assert_eq!(faces.iter().filter(|f| (f.x, f.y, f.z) == (4, 4, 5)).count(), 5);
    assert_eq!(faces.iter().filter(|f| (f.x, f.y, f.z) == (3, 5, 5)).count(), 0);
    assert!(faces.contains(&Face { x: 4, y: 4, z: 5, side: Side::Top, texture: 24 }));
}

#[test]
fn neighbouring_chunks_hide_faces_at_the_border() {
    let mut chunk = empty();
    chunk.set_block(0, 0, 0, Block { id: 1 });
    chunk.set_block(15, 255, 15, Block { id: 1 });
    let mut east = empty();
    east.set_block(15, 0, 0, Block { id: 1 });
    let mut north = empty();
    north.set_block(15, 255, 0, Block { id: 1 });
    let group = ChunkGroup::new(chunk, north, empty(), east, empty());
    let faces = visible_faces(&group, &registry());
    let at_origin: Vec<Side> = faces.iter().filter(|f| (f.x, f.y, f.z) == (0, 0, 0)).map(|f| f.side).collect();
    // towards lesser x lies the block of the east chunk; below the chunk lies nothing
    assert_eq!(at_origin, vec![Side::Front, Side::Back, Side::Right, Side::Top, Side::Bottom]);
    let at_top: Vec<Side> = faces.iter().filter(|f| (f.x, f.y, f.z) == (15, 255, 15)).map(|f| f.side).collect();
    // towards greater z lies the block of the north chunk; above the chunk lies nothing
    assert_eq!(at_top, vec![Side::Front, Side::Left, Side::Right, Side::Top, Side::Bottom]);
}

#[test]
fn full_layer_shows_its_outside() {
    let mut chunk = empty();
    for x in 0..16 {
        for z in 0..16 {
            chunk.set_block(x, 10, z, Block { id: 1 });
        }
    }
    let faces = visible_faces(&around(chunk), &registry());
    // top and bottom of each block, and the rim
    assert_eq!(faces.len(), 2 * 256 + 4 * 16);
}
