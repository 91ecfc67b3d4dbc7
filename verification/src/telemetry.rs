//! The log-level vocabulary of the control surface.

use vstd::prelude::*;

verus! {

/// A logging verbosity level, as the control surface names one.
#[derive(Clone, Copy, Debug, PartialEq, Eq, Structural)]
pub enum LogLevel {
    /// Finest-grained messages.
    Trace,
    /// Diagnostic messages.
    Debug,
    /// Routine messages.
    Info,
    /// Possible problems.
    Warn,
    /// Failures.
    Error,
    /// No logging at all.
    Off,
}

/// The level a request names, or nothing when the name is unknown.
pub open spec fn spec_log_level(s: Seq<char>) -> Option<LogLevel> {
    if s == "debug"@ {
        Some(LogLevel::Debug)
    } else if s == "error"@ {
        Some(LogLevel::Error)
    } else if s == "info"@ {
        Some(LogLevel::Info)
    } else if s == "warn"@ {
        Some(LogLevel::Warn)
    } else if s == "trace"@ {
        Some(LogLevel::Trace)
    } else if s == "off"@ {
        Some(LogLevel::Off)
    } else {
        None
    }
}

/// Parses the log level a change request names; an unknown name is
/// rejected with nothing.
pub fn get_log_level_from_str(level_str: String) -> (r: Option<LogLevel>)
    ensures
        r == spec_log_level(level_str@),
{
    if level_str == "debug".to_owned() {
        Some(LogLevel::Debug)
    } else if level_str == "error".to_owned() {
        Some(LogLevel::Error)
    } else if level_str == "info".to_owned() {
        Some(LogLevel::Info)
    } else if level_str == "warn".to_owned() {
        Some(LogLevel::Warn)
    } else if level_str == "trace".to_owned() {
        Some(LogLevel::Trace)
    } else if level_str == "off".to_owned() {
        Some(LogLevel::Off)
    } else {
        None
    }
}

} // verus!
