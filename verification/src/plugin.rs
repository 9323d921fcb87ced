//! Appenders that keep what they are given in memory.

pub mod buffer;
pub mod logger_buffer;
