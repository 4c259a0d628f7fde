//! Log levels for the command-line tool's logger. Writing and reading the
//! log files happens outside.

use vstd::prelude::*;

verus! {

/// The severity of a log entry.
#[derive(Clone, Copy, Debug, PartialEq, Eq, Structural)]
pub enum LogLevel {
    Info,
    Error,
    Debug,
}

impl LogLevel {
    pub open spec fn spec_str(self) -> Seq<char> {
        match self {
            LogLevel::Info => "info"@,
            LogLevel::Error => "error"@,
            LogLevel::Debug => "debug"@,
        }
    }

    /// The lowercase name of the level.
    pub fn as_str(&self) -> (r: &'static str)
        ensures
            r@ == self.spec_str(),
    {
        match self {
            LogLevel::Info => "info",
            LogLevel::Error => "error",
            LogLevel::Debug => "debug",
        }
    }
}

} // verus!
