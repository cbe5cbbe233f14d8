pub mod generation;
pub mod geometry;
pub mod streaming;
pub mod world;
pub mod world_coordinate;

pub use self::streaming::LOAD_DISTANCE;
pub use self::world::World;
pub use self::world_coordinate::WorldCoordinate;
