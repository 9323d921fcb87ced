//! A channel-based logging library: a registry of named loggers, record
//! batching decisions for the background workers, and in-memory appenders.

pub mod level;
pub mod record;
pub mod config;
pub mod consts;
pub mod channel;
pub mod fast_log;
pub mod plugin;
pub mod console_filter;
pub mod formats;
mod strings;

pub use crate::config::{Appender, Config};
pub use crate::fast_log::{exit, flush, init, logger, print, Logger, Loggers, Registry};
pub use crate::level::{Level, LevelFilter};
pub use crate::record::{Command, FastLogRecord, LogError};
