//! Log levels, and reading one from its name.

use std::str::FromStr;
use vstd::prelude::*;
use crate::error::AppError;
use crate::text::{joined, lowercased, same_text, to_lower};

verus! {

/// How much is logged, from the least to the most.
#[derive(Clone, Copy, Debug, PartialEq, Eq)]
pub enum LogLevel {
    Error,
    Warn,
    Info,
    Debug,
    Trace,
}

/// The level that a lowercase name stands for.
pub open spec fn level_named(lowered: Seq<char>) -> Option<LogLevel> {
    if lowered == "error"@ {
        Some(LogLevel::Error)
    } else if lowered == "warn"@ {
        Some(LogLevel::Warn)
    } else if lowered == "info"@ {
        Some(LogLevel::Info)
    } else if lowered == "debug"@ {
        Some(LogLevel::Debug)
    } else if lowered == "trace"@ {
        Some(LogLevel::Trace)
    } else {
        None
    }
}

/// What `tracing::Level::from_str` makes of a text, `None` standing for its
/// error.
pub uninterp spec fn tracing_level(s: Seq<char>) -> Option<LogLevel>;

/// The level that a text names: by its lowercase form where that is one of
/// the five names, else as `tracing` reads the text itself.
pub open spec fn level_of(s: Seq<char>) -> Option<LogLevel> {
    match level_named(lowercased(s)) {
        Some(level) => Some(level),
        None => tracing_level(s),
    }
}

/// `tracing::Level::from_str`, with the level it returns rewritten as a
/// `LogLevel`: the result depends on the text alone. `tracing` has the five
/// levels and no other, so the last arm is `TRACE`.
#[verifier::external_body]
fn level_from_str(s: &str) -> (r: Option<LogLevel>)
    ensures
        r == tracing_level(s@),
{
    match tracing::Level::from_str(s) {
        Ok(tracing::Level::ERROR) => Some(LogLevel::Error),
        Ok(tracing::Level::WARN) => Some(LogLevel::Warn),
        Ok(tracing::Level::INFO) => Some(LogLevel::Info),
        Ok(tracing::Level::DEBUG) => Some(LogLevel::Debug),
        Ok(_) => Some(LogLevel::Trace),
        Err(_) => None,
    }
}

/// The level that a lowercase name stands for: `error`, `warn`, `info`,
/// `debug` or `trace`.
pub fn named_level(lowered: &str) -> (r: Option<LogLevel>)
    ensures
        r == level_named(lowered@),
{
    if same_text(lowered, "error") {
        Some(LogLevel::Error)
    } else if same_text(lowered, "warn") {
        Some(LogLevel::Warn)
    } else if same_text(lowered, "info") {
        Some(LogLevel::Info)
    } else if same_text(lowered, "debug") {
        Some(LogLevel::Debug)
    } else if same_text(lowered, "trace") {
        Some(LogLevel::Trace)
    } else {
        None
    }
}

/// Reads a log level from its name, in any case, or from what `tracing`
/// accepts besides. A text that names no level is refused with a message
/// that quotes it.
pub fn parse_log_level(level_str: &str) -> (r: Result<LogLevel, AppError>)
    ensures
        match level_of(level_str@) {
            Some(level) => r == Ok::<LogLevel, AppError>(level),
            None => r matches Err(AppError::Logging(m)) && m@ == "Invalid log level: "@
                + level_str@,
        },
{
    let lowered = to_lower(level_str);
    match named_level(lowered.as_str()) {
        Some(level) => Ok(level),
        None => match level_from_str(level_str) {
            Some(level) => Ok(level),
            None => Err(AppError::Logging(joined("Invalid log level: ", level_str))),
        },
    }
}

} // verus!
