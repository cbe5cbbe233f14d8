pub mod block;
pub mod chunk;
pub mod events;
pub mod render;
pub mod utils;
pub mod world;
