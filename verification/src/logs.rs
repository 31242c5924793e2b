//! The closed set of log levels, with their display labels.  Writing and
//! reading log files is the caller's concern.

use vstd::prelude::*;
use vstd::string::StringExecFns;

verus! {

/// Severity of a log entry.
#[derive(Debug, Clone, PartialEq, Eq, Structural)]
pub enum LogLevel {
    Error,
    Warn,
    Info,
    Debug,
    Trace,
}

/// The display label of each level.
pub open spec fn level_label(l: LogLevel) -> Seq<char> {
    match l {
        LogLevel::Error => "ERROR"@,
        LogLevel::Warn => "WARN"@,
        LogLevel::Info => "INFO"@,
        LogLevel::Debug => "DEBUG"@,
        LogLevel::Trace => "TRACE"@,
    }
}

impl LogLevel {
    /// The level's display label.
    pub fn label(&self) -> (r: String)
        ensures
            r@ == level_label(*self),
    {
        match self {
            LogLevel::Error => String::from_str("ERROR"),
            LogLevel::Warn => String::from_str("WARN"),
            LogLevel::Info => String::from_str("INFO"),
            LogLevel::Debug => String::from_str("DEBUG"),
            LogLevel::Trace => String::from_str("TRACE"),
        }
    }
}

} // verus!
