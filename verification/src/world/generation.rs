pub mod generator;
pub mod height_map;
pub mod noise;
pub mod random;
pub mod seed;

pub use self::generator::generate_chunk;
pub use self::height_map::HeightMap;
pub use self::seed::WorldSeed;
