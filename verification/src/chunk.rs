pub mod chunk;
pub mod chunk_grid;
pub mod chunk_group;
pub mod grid;

pub use self::chunk::{Chunk, CHUNK_DEPTH, CHUNK_HEIGHT, CHUNK_WIDTH};
pub use self::chunk_grid::ChunkGridCoordinate;
pub use self::chunk_group::ChunkGroup;
pub use self::grid::ChunkGrid;
