//! Verbosity levels for the command-line output. The global level
//! itself is process state and lives in the surrounding application.

use vstd::prelude::*;

verus! {

/// Output verbosity, from most to least talkative.
#[derive(Copy, Clone, PartialEq, Eq, Structural, PartialOrd, Ord, Debug)]
pub enum LogLevel {
    Trace,
    Debug,
    Info,
    Warn,
    Error,
    Off,
}

/// The rank of a level: lower ranks are more verbose, and a message is
/// shown when its level's rank is at least the configured one's.
pub open spec fn spec_level_rank(l: LogLevel) -> int {
    match l {
        LogLevel::Trace => 0,
        LogLevel::Debug => 1,
        LogLevel::Info => 2,
        LogLevel::Warn => 3,
        LogLevel::Error => 4,
        LogLevel::Off => 5,
    }
}

impl LogLevel {
    /// The numeric rank of this level.
    pub fn rank(&self) -> (r: u8)
        ensures
            r as int == spec_level_rank(*self),
    {
        match self {
            LogLevel::Trace => 0,
            LogLevel::Debug => 1,
            LogLevel::Info => 2,
            LogLevel::Warn => 3,
            LogLevel::Error => 4,
            LogLevel::Off => 5,
        }
    }

    /// Whether a message at level `message` is shown when this level is
    /// configured.
    pub fn shows(&self, message: &LogLevel) -> (r: bool)
        ensures
            r == (spec_level_rank(*self) <= spec_level_rank(*message)),
    {
        self.rank() <= message.rank()
    }

    /// The level selected by the counts of `--verbose` and `--quiet`
    /// flags: verbosity wins, and each `--quiet` silences one level
    /// more.
    pub fn from_flags(verbose: u8, quiet: u8) -> (r: LogLevel)
        ensures
            verbose >= 2 ==> r == LogLevel::Trace,
            verbose == 1 ==> r == LogLevel::Debug,
            verbose == 0 && quiet == 0 ==> r == LogLevel::Info,
            verbose == 0 && quiet == 1 ==> r == LogLevel::Warn,
            verbose == 0 && quiet == 2 ==> r == LogLevel::Error,
            verbose == 0 && quiet >= 3 ==> r == LogLevel::Off,
    {
        if verbose >= 2 {
            LogLevel::Trace
        } else if verbose == 1 {
            LogLevel::Debug
        } else if quiet == 0 {
            LogLevel::Info
        } else if quiet == 1 {
            LogLevel::Warn
        } else if quiet == 2 {
            LogLevel::Error
        } else {
            LogLevel::Off
        }
    }
}

} // verus!
