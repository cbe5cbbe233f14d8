use crate::block::{BlockProperties, BlockRegistry, BlockTexture};
use crate::chunk::chunk_group::ChunkGroup;
use crate::utils::sequence::lemma_concat_contains;
use vstd::prelude::*;

verus! {

/// A side of a block.
#[derive(Clone, Copy, Debug, PartialEq, Eq, Structural)]
pub enum Side {
    /// Towards lesser z.
    Front,
    /// Towards greater z.
    Back,
    /// Towards lesser x.
    Left,
    /// Towards greater x.
    Right,
    /// Towards greater y.
    Top,
    /// Towards lesser y.
    Bottom,
}

impl Side {
    /// How light the side is drawn, from 0 to 3.
    pub open spec fn spec_light(&self) -> u8 {
        match self {
            Side::Front => 2,
            Side::Back => 2,
            Side::Left => 1,
            Side::Right => 1,
            Side::Top => 3,
            Side::Bottom => 0,
        }
    }

    /// How light the side is drawn, from 0 to 3.
    pub fn light(&self) -> (light: u8)
        ensures
            light == self.spec_light(),
    {
        match self {
            Side::Front => 2,
            Side::Back => 2,
            Side::Left => 1,
            Side::Right => 1,
            Side::Top => 3,
            Side::Bottom => 0,
        }
    }

    /// The step along x, y and z that leads from a block to the block that
    /// lies against the side.
    pub open spec fn spec_step(&self) -> (int, int, int) {
        match self {
            Side::Front => (0, 0, -1),
            Side::Back => (0, 0, 1),
            Side::Left => (-1, 0, 0),
            Side::Right => (1, 0, 0),
            Side::Top => (0, 1, 0),
            Side::Bottom => (0, -1, 0),
        }
    }

    /// The texture of the side in `texture`.
    pub open spec fn spec_texture(&self, texture: BlockTexture) -> u8 {
        match self {
            Side::Front => texture.front,
            Side::Back => texture.back,
            Side::Left => texture.left,
            Side::Right => texture.right,
            Side::Top => texture.top,
            Side::Bottom => texture.bottom,
        }
    }

    /// The texture of the side in `texture`.
    pub fn texture(&self, texture: &BlockTexture) -> (index: u8)
        ensures
            index == self.spec_texture(*texture),
    {
        match self {
            Side::Front => texture.front,
            Side::Back => texture.back,
            Side::Left => texture.left,
            Side::Right => texture.right,
            Side::Top => texture.top,
            Side::Bottom => texture.bottom,
        }
    }
}

/// What is handed to the shader with a vertex: the texture from the fifth
/// bit up, the light in the two bits under it, and in the lowest two bits
/// which of the four corners of its face the vertex is.
pub open spec fn spec_vertex_info(texture_id: u8, light: u8, corner: u8) -> u32 {
    (texture_id * 16 + (light % 4) * 4 + corner % 4) as u32
}

/// Packs what is handed to the shader with a vertex.
pub fn vertex_info(texture_id: u8, light: u8, corner: u8) -> (info: u32)
    ensures
        info == spec_vertex_info(texture_id, light, corner),
{
    let info: u32 = (texture_id as u32) << 4 | (((light & 0b11) << 2) as u32) | ((corner
        & 0b11) as u32);
    assert(((texture_id as u32) << 4 | (((light & 0b11u8) << 2) as u32) | ((corner & 0b11u8) as u32))
        == (texture_id as u32) * 16 + ((light % 4) as u32) * 4 + ((corner % 4) as u32))
        by (bit_vector);
    info
}

/// The vertices of the two triangles of a face whose four corners are the
/// vertices from `first` on.
pub fn face_indices(first: u32) -> (indices: [u32; 6])
    requires
        first + 3 <= u32::MAX,
    ensures
        indices@ == seq![
            first,
            (first + 3) as u32,
            (first + 1) as u32,
            (first + 1) as u32,
            (first + 3) as u32,
            (first + 2) as u32,
        ],
{
    let indices = [first, first + 3, first + 1, first + 1, first + 3, first + 2];
    assert(indices@ =~= seq![
        first,
        (first + 3) as u32,
        (first + 1) as u32,
        (first + 1) as u32,
        (first + 3) as u32,
        (first + 2) as u32,
    ]);
    indices
}

/// A side of a block of a chunk that is to be drawn.
#[derive(Clone, Copy, Debug, PartialEq, Eq, Structural)]
pub struct Face {
    pub x: u8,
    pub y: u8,
    pub z: u8,
    pub side: Side,
    /// The texture of the side.
    pub texture: u8,
}

/// Whether the block at `(x, y, z)` of the middle chunk of `group` is
/// drawn: it is not air, and the registry knows it.
pub open spec fn spec_drawn(
    group: ChunkGroup,
    registry: Map<u8, BlockProperties>,
    x: int,
    y: int,
    z: int,
) -> bool {
    let id = group.current.spec_block(x, y, z).id;
    id != 0 && registry.contains_key(id)
}

/// Whether something hides the side `side` of the block at `(x, y, z)`:
/// against it lies a block that the registry knows to be opaque. Where the
/// group has no block, nothing hides the side.
pub open spec fn spec_hidden(
    group: ChunkGroup,
    registry: Map<u8, BlockProperties>,
    x: int,
    y: int,
    z: int,
    side: Side,
) -> bool {
    let step = side.spec_step();
    match group.spec_get_block(x + step.0, y + step.1, z + step.2) {
        Some(block) => registry.contains_key(block.id) && registry[block.id].opaque,
        None => false,
    }
}

/// The face of the side `side` of the block at `(x, y, z)`, if it is to be
/// drawn.
pub open spec fn spec_face(
    group: ChunkGroup,
    registry: Map<u8, BlockProperties>,
    x: int,
    y: int,
    z: int,
    side: Side,
) -> Seq<Face> {
    if spec_drawn(group, registry, x, y, z) && !spec_hidden(group, registry, x, y, z, side) {
        seq![
            Face {
                x: x as u8,
                y: y as u8,
                z: z as u8,
                side,
                texture: side.spec_texture(
                    registry[group.current.spec_block(x, y, z).id].texture,
                ),
            },
        ]
    } else {
        Seq::empty()
    }
}

/// The faces of the block at `(x, y, z)` that are to be drawn: front, back,
/// left, right, top, bottom.
#[verifier::opaque]
pub open spec fn spec_block_faces(
    group: ChunkGroup,
    registry: Map<u8, BlockProperties>,
    x: int,
    y: int,
    z: int,
) -> Seq<Face> {
    spec_face(group, registry, x, y, z, Side::Front) + spec_face(
        group,
        registry,
        x,
        y,
        z,
        Side::Back,
    ) + spec_face(group, registry, x, y, z, Side::Left) + spec_face(
        group,
        registry,
        x,
        y,
        z,
        Side::Right,
    ) + spec_face(group, registry, x, y, z, Side::Top) + spec_face(
        group,
        registry,
        x,
        y,
        z,
        Side::Bottom,
    )
}

/// The faces of the first `count` blocks of the middle chunk of `group`
/// that are to be drawn. The blocks are counted along z, then along y,
/// then along x.
pub open spec fn spec_faces(group: ChunkGroup, registry: Map<u8, BlockProperties>, count: nat) -> Seq<
    Face,
>
    decreases count,
{
    if count == 0 {
        Seq::empty()
    } else {
        let last = (count - 1) as int;
        spec_faces(group, registry, (count - 1) as nat) + spec_block_faces(
            group,
            registry,
            last / 4096,
            (last / 16) % 256,
            last % 16,
        )
    }
}

/// Whether `face` is a face of the middle chunk of `group` that is to be
/// drawn: it lies on a block of the chunk that is drawn, on a side that
/// nothing hides, and has the texture of that side.
pub open spec fn spec_shown(group: ChunkGroup, registry: Map<u8, BlockProperties>, face: Face) -> bool {
    &&& face.x < 16
    &&& face.z < 16
    &&& spec_drawn(group, registry, face.x as int, face.y as int, face.z as int)
    &&& !spec_hidden(group, registry, face.x as int, face.y as int, face.z as int, face.side)
    &&& face.texture == face.side.spec_texture(
        registry[group.current.spec_block(face.x as int, face.y as int, face.z as int).id].texture,
    )
}

/// The faces of a block that are listed are those of its faces that are to
/// be drawn.
pub proof fn lemma_block_faces(
    group: ChunkGroup,
    registry: Map<u8, BlockProperties>,
    x: int,
    y: int,
    z: int,
    face: Face,
)
    requires
        0 <= x < 16,
        0 <= y < 256,
        0 <= z < 16,
    ensures
        spec_block_faces(group, registry, x, y, z).contains(face) <==> face.x == x && face.y == y
            && face.z == z && spec_shown(group, registry, face),
{
    reveal(spec_block_faces);
    let front = spec_face(group, registry, x, y, z, Side::Front);
    let back = spec_face(group, registry, x, y, z, Side::Back);
    let left = spec_face(group, registry, x, y, z, Side::Left);
    let right = spec_face(group, registry, x, y, z, Side::Right);
    let top = spec_face(group, registry, x, y, z, Side::Top);
    let bottom = spec_face(group, registry, x, y, z, Side::Bottom);
    lemma_face(group, registry, x, y, z, Side::Front, face);
    lemma_face(group, registry, x, y, z, Side::Back, face);
    lemma_face(group, registry, x, y, z, Side::Left, face);
    lemma_face(group, registry, x, y, z, Side::Right, face);
    lemma_face(group, registry, x, y, z, Side::Top, face);
    lemma_face(group, registry, x, y, z, Side::Bottom, face);
    lemma_concat_contains(front, back, face);
    lemma_concat_contains(front + back, left, face);
    lemma_concat_contains(front + back + left, right, face);
    lemma_concat_contains(front + back + left + right, top, face);
    lemma_concat_contains(
        front + back + left + right + top,
        bottom,
        face,
    );
}

/// The face of a side of a block is listed where it is to be drawn.
proof fn lemma_face(
    group: ChunkGroup,
    registry: Map<u8, BlockProperties>,
    x: int,
    y: int,
    z: int,
    side: Side,
    face: Face,
)
    requires
        0 <= x < 16,
        0 <= y < 256,
        0 <= z < 16,
    ensures
        spec_face(group, registry, x, y, z, side).contains(face) <==> face.x == x && face.y == y
            && face.z == z && face.side == side && spec_shown(group, registry, face),
{
    let listed = spec_face(group, registry, x, y, z, side);
    if listed.len() > 0 {
        assert(listed[0] == listed[0]);
        if face.x == x && face.y == y && face.z == z && face.side == side && spec_shown(
            group,
            registry,
            face,
        ) {
            assert(listed[0] == face);
        }
    }
}

/// The faces of a chunk that are listed are exactly its faces that are to
/// be drawn.
pub proof fn lemma_faces(group: ChunkGroup, registry: Map<u8, BlockProperties>, count: nat, face: Face)
    requires
        count <= 65536,
    ensures
        spec_faces(group, registry, count).contains(face) <==> spec_shown(group, registry, face)
            && face.x * 4096 + face.y * 16 + face.z < count,
    decreases count,
{
    if count > 0 {
        let last = (count - 1) as int;
        let before = spec_faces(group, registry, (count - 1) as nat);
        let added = spec_block_faces(group, registry, last / 4096, (last / 16) % 256, last % 16);
        lemma_faces(group, registry, (count - 1) as nat, face);
        lemma_block_faces(group, registry, last / 4096, (last / 16) % 256, last % 16, face);
        lemma_concat_contains(before, added, face);
    }
}

/// Adds the face of the side `side` of the block `block` at `(x, y, z)` to
/// `faces`, unless something hides it.
fn push_face(
    faces: &mut Vec<Face>,
    chunks: &ChunkGroup,
    registry: &BlockRegistry,
    properties: &BlockProperties,
    x: u8,
    y: u8,
    z: u8,
    side: Side,
)
    requires
        chunks.wf(),
        x < 16,
        z < 16,
        spec_drawn(*chunks, registry@, x as int, y as int, z as int),
        *properties == registry@[chunks.current.spec_block(x as int, y as int, z as int).id],
    ensures
        final(faces)@ == old(faces)@ + spec_face(
            *chunks,
            registry@,
            x as int,
            y as int,
            z as int,
            side,
        ),
{
    let neighbour = match side {
        Side::Front => chunks.get_block(x as i8, y as i16, z as i8 - 1),
        Side::Back => chunks.get_block(x as i8, y as i16, z as i8 + 1),
        Side::Left => chunks.get_block(x as i8 - 1, y as i16, z as i8),
        Side::Right => chunks.get_block(x as i8 + 1, y as i16, z as i8),
        Side::Top => chunks.get_block(x as i8, y as i16 + 1, z as i8),
        Side::Bottom => chunks.get_block(x as i8, y as i16 - 1, z as i8),
    };
    let hidden = match neighbour {
        Some(block) => registry.is_opaque(block.id),
        None => false,
    };
    if !hidden {
        faces.push(Face { x, y, z, side, texture: side.texture(&properties.texture) });
        assert(faces@ =~= old(faces)@ + spec_face(
            *chunks,
            registry@,
            x as int,
            y as int,
            z as int,
            side,
        ));
    } else {
        assert(faces@ =~= old(faces)@ + spec_face(
            *chunks,
            registry@,
            x as int,
            y as int,
            z as int,
            side,
        ));
    }
}

/// Adds the faces of the block at `(x, y, z)` that are to be drawn to
/// `faces`.
fn push_block_faces(
    faces: &mut Vec<Face>,
    chunks: &ChunkGroup,
    registry: &BlockRegistry,
    x: u8,
    y: u8,
    z: u8,
)
    requires
        chunks.wf(),
        x < 16,
        z < 16,
    ensures
        final(faces)@ == old(faces)@ + spec_block_faces(
            *chunks,
            registry@,
            x as int,
            y as int,
            z as int,
        ),
{
    reveal(spec_block_faces);
    let block = chunks.current.block(x as usize, y as usize, z as usize);
    if block.id != 0 {
        if let Some(properties) = registry.properties(block.id) {
            push_face(faces, chunks, registry, properties, x, y, z, Side::Front);
            push_face(faces, chunks, registry, properties, x, y, z, Side::Back);
            push_face(faces, chunks, registry, properties, x, y, z, Side::Left);
            push_face(faces, chunks, registry, properties, x, y, z, Side::Right);
            push_face(faces, chunks, registry, properties, x, y, z, Side::Top);
            push_face(faces, chunks, registry, properties, x, y, z, Side::Bottom);
        }
    }
    assert(faces@ =~= old(faces)@ + spec_block_faces(
        *chunks,
        registry@,
        x as int,
        y as int,
        z as int,
    ));
}

/// Lists the faces of the middle chunk of `chunks` that are to be drawn:
/// of each block that is not air and that `registry` knows, the sides that
/// no opaque block lies against. At the borders of the chunk the blocks of
/// the neighbouring chunks decide; above and below the chunk nothing hides
/// a side.
pub fn visible_faces(chunks: &ChunkGroup, registry: &BlockRegistry) -> (faces: Vec<Face>)
    requires
        chunks.wf(),
    ensures
        faces@ == spec_faces(*chunks, registry@, 65536),
{
    let mut faces: Vec<Face> = Vec::new();
    let mut x: u8 = 0;
    while x < 16
        invariant
            chunks.wf(),
            x <= 16,
            faces@ == spec_faces(*chunks, registry@, (x * 4096) as nat),
        decreases 16 - x,
    {
        let mut y: u16 = 0;
        while y < 256
            invariant
                chunks.wf(),
                x < 16,
                y <= 256,
                faces@ == spec_faces(*chunks, registry@, (x * 4096 + y * 16) as nat),
            decreases 256 - y,
        {
            let mut z: u8 = 0;
            while z < 16
                invariant
                    chunks.wf(),
                    x < 16,
                    y < 256,
                    z <= 16,
                    faces@ == spec_faces(*chunks, registry@, (x * 4096 + y * 16 + z) as nat),
                decreases 16 - z,
            {
                let ghost count = (x * 4096 + y * 16 + z) as nat;
                push_block_faces(&mut faces, chunks, registry, x, y as u8, z);
                proof {
                    assert(count as int / 4096 == x && (count as int / 16) % 256 == y && count as int
                        % 16 == z);
                    assert(spec_faces(*chunks, registry@, (count + 1) as nat) == spec_faces(
                        *chunks,
                        registry@,
                        count,
                    ) + spec_block_faces(*chunks, registry@, x as int, y as int, z as int));
                }
                z = z + 1;
            }
            y = y + 1;
        }
        x = x + 1;
    }
    faces
}

} // verus!
