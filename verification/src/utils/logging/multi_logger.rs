use crate::utils::logging::level::{Level, Logger};
use vstd::prelude::*;

verus! {

/// Several loggers that take the same records.
pub struct MultiLogger {
    pub loggers: Vec<Box<dyn Logger>>,
}

impl Logger for MultiLogger {
    /// A record is written where one of the loggers writes it.
    open spec fn spec_enabled(&self, level: Level) -> bool {
        exists|i: int| 0 <= i < self.loggers@.len() && (#[trigger] self.loggers@[i]).spec_enabled(level)
    }

    fn enabled(&self, level: Level) -> (enabled: bool) {
        let mut i: usize = 0;
        while i < self.loggers.len()
            invariant
                i <= self.loggers.len(),
                forall|j: int| 0 <= j < i ==> !(#[trigger] self.loggers@[j]).spec_enabled(level),
            decreases self.loggers.len() - i,
        {
            if self.loggers[i].enabled(level) {
                return true;
            }
            i = i + 1;
        }
        false
    }
}

} // verus!
