//! Utilities of the MaidSafe network: an asynchronous multi-backend log
//! pipeline, typed event subsetting over channels, and a few helpers.

/// Byte framing of log messages on raw streams.
pub mod framing;
/// Shortening of the source paths that log lines carry.
pub mod path_filter;
/// The worker that serialises the writes of an asynchronous appender.
pub mod worker;
/// The layouts that appenders encode records with.
pub mod encoder;
/// Untyped appender configuration and its errors.
pub mod config;
/// Appender settings, their builders, and the creators that read them from
/// configuration files.
pub mod appender;
/// Event subsetting over channels.
pub mod event_sender;
/// Taking the value out of a `Result` or an `Option` known to hold one.
pub mod unwrap;
/// Per-module log levels given as text.
pub mod loggers;
