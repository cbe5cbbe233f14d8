pub mod chunk_mesh;
