use std::time::Duration;
use voxel_core::utils::logging::file_logger::{FileLogger, FileLoggerOptions};
use voxel_core::utils::logging::level::{Level, Logger};
use voxel_core::utils::logging::multi_logger::MultiLogger;
use voxel_core::utils::logging::stdout_logger::{Rgb, StdoutLogger};
use voxel_core::utils::time::{format_timestamp, timestamp_format};

#[test]
fn time_since_format() {
    assert_eq!("00:00:00.000", timestamp_format(Duration::new(0, 0)));
    assert_eq!("00:00:00.999", timestamp_format(Duration::from_millis(999)));
    assert_eq!("00:00:01.000", timestamp_format(Duration::from_secs(1)));
    assert_eq!("00:00:59.000", timestamp_format(Duration::from_secs(59)));
    assert_eq!("00:01:00.000", timestamp_format(Duration::from_secs(60)));
    assert_eq!(
        "00:59:00.000",
        timestamp_format(Duration::from_secs(59 * 60))
    );
    assert_eq!(
        "01:00:00.000",
        timestamp_format(Duration::from_secs(60 * 60))
    );
    assert_eq!(
        "99:00:00.000",
        timestamp_format(Duration::from_secs(99 * 60 * 60))
    );
}

#[test]
fn timestamp_of_many_hours_grows() {
    assert_eq!("100:00:00.000", format_timestamp(100 * 3600, 0));
    assert_eq!("12345:06:07.089", format_timestamp(12345 * 3600 + 6 * 60 + 7, 89));
    assert_eq!("5124095576030431:00:15.999", format_timestamp(u64::MAX, 999));
    assert_eq!("01:02:03.004", format_timestamp(3723, 4));
    assert_eq!("10:20:30.040", format_timestamp(10 * 3600 + 20 * 60 + 30, 40));
    assert_eq!("00:00:00.100", format_timestamp(0, 100));
    assert_eq!("00:00:00.010", timestamp_format(Duration::from_micros(10_999)));
}

#[test]
fn log_enabled_debug() {
    let logger = FileLogger::new(Level::Debug, FileLoggerOptions::new("test"));
    assert!(logger.enabled(Level::Error));
    assert!(logger.enabled(Level::Warn));
    assert!(logger.enabled(Level::Info));
    assert!(logger.enabled(Level::Debug));
    assert!(!logger.enabled(Level::Trace));
}

#[test]
fn log_enabled_error() {
    let logger = FileLogger::new(Level::Error, FileLoggerOptions::new("test"));
    assert!(logger.enabled(Level::Error));
    assert!(!logger.enabled(Level::Warn));
    assert!(!logger.enabled(Level::Info));
    assert!(!logger.enabled(Level::Debug));
    assert!(!logger.enabled(Level::Trace));
}

#[test]
fn log_enabled() {
    let logger = MultiLogger {
        loggers: vec![
            Box::new(FileLogger::new(
                Level::Debug,
                FileLoggerOptions::new("test"),
            )),
            Box::new(StdoutLogger::new(Level::Info)),
        ],
    };
    assert!(logger.enabled(Level::Error));
    assert!(logger.enabled(Level::Warn));
    assert!(logger.enabled(Level::Info));
    assert!(logger.enabled(Level::Debug));
    assert!(!logger.enabled(Level::Trace));
}

#[test]
fn log_enabled_info() {
    let logger = StdoutLogger::new(Level::Info);
    assert!(logger.enabled(Level::Error));
    assert!(logger.enabled(Level::Warn));
    assert!(logger.enabled(Level::Info));
    assert!(!logger.enabled(Level::Debug));
    assert!(!logger.enabled(Level::Trace));
}

#[test]
fn log_enabled_warn() {
    let logger = StdoutLogger::new(Level::Warn);
    assert!(logger.enabled(Level::Error));
    assert!(logger.enabled(Level::Warn));
    assert!(!logger.enabled(Level::Info));
    assert!(!logger.enabled(Level::Debug));
    assert!(!logger.enabled(Level::Trace));
}

#[test]
fn empty_multi_logger_writes_nothing() {
    let logger = MultiLogger { loggers: vec![] };
    assert!(!logger.enabled(Level::Error));
    assert!(!logger.enabled(Level::Trace));
}

#[test]
fn file_logger_options_defaults() {
    let options = FileLoggerOptions::new("game");
    assert_eq!(options.directory, "logs/");
    assert_eq!(options.filename, "game");
    assert_eq!(options.max_size, 5 * 1024 * 1024);
    assert_eq!(options.max_files, 10);
}

#[test]
fn file_logger_rules() {
    let logger = FileLogger::new(Level::Info, FileLoggerOptions::new("game"));
    assert_eq!(logger.log_file_name(), "game.log");
    assert!(!logger.should_rotate(0));
    assert!(!logger.should_rotate(5 * 1024 * 1024 - 1));
    assert!(logger.should_rotate(5 * 1024 * 1024));
    assert!(logger.should_rotate(u64::MAX));
    assert!(!logger.exceeds_max_files(None));
    assert!(!logger.exceeds_max_files(Some(0)));
    assert!(!logger.exceeds_max_files(Some(10)));
    assert!(logger.exceeds_max_files(Some(11)));
}

#[test]
fn file_logger_record_line() {
    let logger = FileLogger::new(Level::Trace, FileLoggerOptions::new("game"));
    assert_eq!(
        logger.format_record(3723, 4, Level::Warn, "low memory"),
        "01:02:03.004 WARN: low memory\n"
    );
    assert_eq!(logger.format_record(0, 0, Level::Error, ""), "00:00:00.000 ERROR: \n");
    assert_eq!(logger.format_record(1, 1, Level::Info, "a"), "00:00:01.001 INFO: a\n");
    assert_eq!(logger.format_record(1, 1, Level::Debug, "b"), "00:00:01.001 DEBUG: b\n");
    assert_eq!(logger.format_record(1, 1, Level::Trace, "c"), "00:00:01.001 TRACE: c\n");
}

#[test]
fn level_ranks_and_names() {
    let levels = [Level::Error, Level::Warn, Level::Info, Level::Debug, Level::Trace];
    let names = ["ERROR", "WARN", "INFO", "DEBUG", "TRACE"];
    for (i, level) in levels.iter().enumerate() {
        assert_eq!(level.rank() as usize, i + 1);
        assert_eq!(level.as_str(), names[i]);
    }
}

#[test]
fn stdout_logger_colors() {
    assert_eq!(StdoutLogger::timestamp_color(), Rgb(0x96, 0x96, 0x96));
    assert_eq!(StdoutLogger::body_color(), Rgb(0xff, 0xff, 0xff));
    assert_eq!(StdoutLogger::level_color(Level::Error), Rgb(0xd1, 0x3d, 0x3d));
    assert_eq!(StdoutLogger::level_color(Level::Warn), Rgb(0xf5, 0xdb, 0x47));
    assert_eq!(StdoutLogger::level_color(Level::Info), Rgb(0x47, 0x8d, 0xf5));
    assert_eq!(StdoutLogger::level_color(Level::Debug), Rgb(0x51, 0xc9, 0x4f));
    assert_eq!(StdoutLogger::level_color(Level::Trace), Rgb(0xff, 0xff, 0xff));
}
