//! How much the program reports on its error stream.
use vstd::prelude::*;

verus! {

/// The levels of logging, from silent to everything.
#[derive(Clone, Copy, Debug, PartialEq, Eq, Structural)]
pub enum LogLevel {
    Off,
    Error,
    Warn,
    Info,
    Debug,
    Trace,
}

impl LogLevel {
    /// The level's name as shown to the user.
    pub fn name(&self) -> (r: &'static str)
        ensures
            r@ == match self {
                LogLevel::Off => "QUIET"@,
                LogLevel::Error => "ERROR"@,
                LogLevel::Warn => "WARN"@,
                LogLevel::Info => "INFO"@,
                LogLevel::Debug => "DEBUG"@,
                LogLevel::Trace => "TRACE"@,
            },
    {
        match self {
            LogLevel::Off => "QUIET",
            LogLevel::Error => "ERROR",
            LogLevel::Warn => "WARN",
            LogLevel::Info => "INFO",
            LogLevel::Debug => "DEBUG",
            LogLevel::Trace => "TRACE",
        }
    }
}

/// The verbosity flags: `quiet`, and how many times `verbose` was given.
pub struct Verbosity {
    pub quiet: bool,
    pub verbose: u8,
}

impl Verbosity {
    pub open spec fn log_level_spec(&self) -> LogLevel {
        if self.quiet {
            LogLevel::Off
        } else if self.verbose == 1 {
            LogLevel::Debug
        } else if self.verbose > 1 {
            LogLevel::Trace
        } else {
            LogLevel::Info
        }
    }

    /// Quiet silences everything; one `verbose` shows debug output, more
    /// show everything; otherwise informational output and above.
    pub fn log_level(&self) -> (r: LogLevel)
        ensures
            r == self.log_level_spec(),
    {
        if self.quiet {
            return LogLevel::Off;
        }
        if self.verbose == 1 {
            return LogLevel::Debug;
        }
        if self.verbose > 1 {
            return LogLevel::Trace;
        }
        LogLevel::Info
    }

    /// The name of the level of logging chosen.
    pub fn name(&self) -> (r: &'static str)
        ensures
            r@ == match self.log_level_spec() {
                LogLevel::Off => "QUIET"@,
                LogLevel::Error => "ERROR"@,
                LogLevel::Warn => "WARN"@,
                LogLevel::Info => "INFO"@,
                LogLevel::Debug => "DEBUG"@,
                LogLevel::Trace => "TRACE"@,
            },
    {
        self.log_level().name()
    }

    pub fn is_quied(&self) -> (r: bool)
        ensures
            r == self.quiet,
    {
        self.quiet
    }
}

} // verus!
