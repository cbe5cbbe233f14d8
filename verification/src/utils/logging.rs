pub mod file_logger;
pub mod level;
pub mod multi_logger;
pub mod stdout_logger;

pub use self::file_logger::{FileLogger, FileLoggerOptions};
pub use self::level::{Level, Logger};
pub use self::multi_logger::MultiLogger;
pub use self::stdout_logger::StdoutLogger;
