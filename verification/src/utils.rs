pub mod logging;
pub mod sequence;
pub mod time;
