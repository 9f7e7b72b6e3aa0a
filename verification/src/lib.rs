//! Composable backend initialization for `tracing`: the verified core.
//!
//! This crate holds the decisions of the logging backend: severity levels and
//! their ordering, how an event is rendered into a line, how the backend stack
//! of a logger evolves when sinks are enabled, disabled or added, how a file
//! configuration is validated and named, and how an in-memory log store is
//! filtered and queried.

pub mod clock;
pub mod config;
pub mod error;
pub mod file;
pub mod format;
pub mod level;
pub mod store;
pub mod text;

pub use crate::clock::Timestamp;
pub use crate::config::{BackendId, BackendKind, BackendSpec, LoggerState, SinkUpdate};
pub use crate::error::{BuildError, InitError};
pub use crate::file::{latest_path, session_path, validate_file_config, FileConfig};
pub use crate::format::{
    format_event, format_level, CapturedEvent, CapturedField, EventVisitor, FormattedEvent,
    FormatterConfig, SinkEvent,
};
pub use crate::level::LogLevel;
pub use crate::store::{EntryLog, LogEntry, LogField, LogFilter};
