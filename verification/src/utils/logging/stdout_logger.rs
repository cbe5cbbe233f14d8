use crate::utils::logging::level::{Level, Logger};
use vstd::prelude::*;

verus! {

/// A colour by its red, green and blue parts.
#[derive(Clone, Copy, Debug, PartialEq, Eq, Structural)]
pub struct Rgb(pub u8, pub u8, pub u8);

/// The rules of a log that is written to the terminal in colours.
pub struct StdoutLogger {
    pub level: Level,
}

impl StdoutLogger {
    pub fn new(level: Level) -> (logger: Self)
        ensures
            logger.level == level,
    {
        Self { level }
    }

    /// The colour of the time of a record.
    pub fn timestamp_color() -> (color: Rgb)
        ensures
            color == Rgb(0x96, 0x96, 0x96),
    {
        Rgb(0x96, 0x96, 0x96)
    }

    /// The colour of the message of a record.
    pub fn body_color() -> (color: Rgb)
        ensures
            color == Rgb(0xff, 0xff, 0xff),
    {
        Rgb(0xff, 0xff, 0xff)
    }

    /// The colour in which the level `level` is written.
    pub open spec fn spec_level_color(level: Level) -> Rgb {
        match level {
            Level::Error => Rgb(0xd1, 0x3d, 0x3d),
            Level::Warn => Rgb(0xf5, 0xdb, 0x47),
            Level::Info => Rgb(0x47, 0x8d, 0xf5),
            Level::Debug => Rgb(0x51, 0xc9, 0x4f),
            Level::Trace => Rgb(0xff, 0xff, 0xff),
        }
    }

    /// The colour in which the level `level` is written.
    pub fn level_color(level: Level) -> (color: Rgb)
        ensures
            color == Self::spec_level_color(level),
    {
        match level {
            Level::Error => Rgb(0xd1, 0x3d, 0x3d),
            Level::Warn => Rgb(0xf5, 0xdb, 0x47),
            Level::Info => Rgb(0x47, 0x8d, 0xf5),
            Level::Debug => Rgb(0x51, 0xc9, 0x4f),
            Level::Trace => Rgb(0xff, 0xff, 0xff),
        }
    }
}

impl Logger for StdoutLogger {
    /// A record is written where it is at least as grave as the level of
    /// the logger.
    open spec fn spec_enabled(&self, level: Level) -> bool {
        level.spec_rank() <= self.level.spec_rank()
    }

    fn enabled(&self, level: Level) -> (enabled: bool) {
        level.rank() <= self.level.rank()
    }
}

} // verus!
