//! Parsing of application, web-server error and web-server access logs
//! into structured records, with multi-line record assembly and filters.
pub mod analyze;
pub mod assemble;
pub mod filter;
pub mod pattern;
pub mod records;
pub mod select;
pub mod text;

pub use analyze::{analyze_access_log, analyze_apache_log, analyze_laravel_log};
pub use records::{AccessLogEntry, ApacheLogEntry, LaravelLogEntry};
pub use select::{select_format, LogFormat, UsageError};
