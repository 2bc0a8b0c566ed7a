//! The logging policy.
//!
//! The kernel's logger filters each record by severity before formatting and
//! printing it on the output channels. Formatting and printing are the boot
//! glue's work; the policy — which levels a logger configured at some level
//! lets through — stands here.

use vstd::prelude::*;

verus! {

/// A record's severity, least severe first.
#[derive(Clone, Copy, Debug, PartialEq, Eq, Structural)]
pub enum LogLevel {
    Trace,
    Debug,
    Info,
    Warning,
    Error,
    Fatal,
}

/// The rank of a severity: higher means more severe.
pub open spec fn spec_severity(l: LogLevel) -> int {
    match l {
        LogLevel::Trace => 0,
        LogLevel::Debug => 1,
        LogLevel::Info => 2,
        LogLevel::Warning => 3,
        LogLevel::Error => 4,
        LogLevel::Fatal => 5,
    }
}

impl LogLevel {
    /// Whether a record at this severity is displayed by a logger configured
    /// at `level`: exactly the records at least as severe as the
    /// configuration.
    pub fn should_display(&self, level: &LogLevel) -> (r: bool)
        ensures
            r == (spec_severity(*self) >= spec_severity(*level)),
    {
        self.severity() >= level.severity()
    }

    /// The severity's rank.
    pub fn severity(&self) -> (r: u8)
        ensures
            r as int == spec_severity(*self),
    {
        match self {
            LogLevel::Trace => 0,
            LogLevel::Debug => 1,
            LogLevel::Info => 2,
            LogLevel::Warning => 3,
            LogLevel::Error => 4,
            LogLevel::Fatal => 5,
        }
    }
}

/// The logger's configuration: the least severity it displays.
pub struct Logger {
    level: LogLevel,
}

impl Logger {
    /// The configured threshold.
    pub closed spec fn level(&self) -> LogLevel {
        self.level
    }

    /// A logger that displays records at `level` and above.
    pub fn new(level: LogLevel) -> (r: Logger)
        ensures
            r.level() == level,
    {
        Logger { level }
    }

    /// Whether this logger displays a record of severity `level`.
    pub fn displays(&self, level: &LogLevel) -> (r: bool)
        ensures
            r == (spec_severity(*level) >= spec_severity(self.level())),
    {
        level.should_display(&self.level)
    }
}

} // verus!
