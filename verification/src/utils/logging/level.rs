use vstd::prelude::*;

verus! {

/// How grave a log record is, from the gravest to the least grave.
#[derive(Clone, Copy, Debug, PartialEq, Eq, Structural)]
pub enum Level {
    Error,
    Warn,
    Info,
    Debug,
    Trace,
}

impl Level {
    /// The place of the level in the order of levels: the graver, the
    /// lower.
    pub open spec fn spec_rank(&self) -> int {
        match self {
            Level::Error => 1,
            Level::Warn => 2,
            Level::Info => 3,
            Level::Debug => 4,
            Level::Trace => 5,
        }
    }

    /// The place of the level in the order of levels.
    pub fn rank(&self) -> (rank: u8)
        ensures
            rank == self.spec_rank(),
    {
        match self {
            Level::Error => 1,
            Level::Warn => 2,
            Level::Info => 3,
            Level::Debug => 4,
            Level::Trace => 5,
        }
    }

    /// The name of the level as it stands in a log record.
    pub open spec fn spec_name(&self) -> Seq<char> {
        match self {
            Level::Error => "ERROR"@,
            Level::Warn => "WARN"@,
            Level::Info => "INFO"@,
            Level::Debug => "DEBUG"@,
            Level::Trace => "TRACE"@,
        }
    }

    /// The name of the level as it stands in a log record.
    pub fn as_str(&self) -> (name: &'static str)
        ensures
            name@ == self.spec_name(),
    {
        match self {
            Level::Error => "ERROR",
            Level::Warn => "WARN",
            Level::Info => "INFO",
            Level::Debug => "DEBUG",
            Level::Trace => "TRACE",
        }
    }
}

/// What decides whether a record of a level is written.
pub trait Logger {
    /// Whether records of the level `level` are written.
    spec fn spec_enabled(&self, level: Level) -> bool;

    /// Whether records of the level `level` are written.
    fn enabled(&self, level: Level) -> (enabled: bool)
        ensures
            enabled == self.spec_enabled(level),
    ;
}

} // verus!
