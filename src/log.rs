//! The console's log level.

use vstd::prelude::*;

verus! {

/// How much the console logs, from nothing to everything.
#[derive(Debug, Clone, Copy, PartialEq, Eq, Structural)]
pub enum LogLevel {
    Off,
    Error,
    Warn,
    Info,
    Debug,
    Trace,
}

/// The number of a level, 0 for `Off` up to 5 for `Trace`.
pub open spec fn level_number(level: LogLevel) -> u8 {
    match level {
        LogLevel::Off => 0,
        LogLevel::Error => 1,
        LogLevel::Warn => 2,
        LogLevel::Info => 3,
        LogLevel::Debug => 4,
        LogLevel::Trace => 5,
    }
}

/// The level of a number; numbers above 5 mean `Trace`.
pub open spec fn level_of(n: u8) -> LogLevel {
    if n == 0 {
        LogLevel::Off
    } else if n == 1 {
        LogLevel::Error
    } else if n == 2 {
        LogLevel::Warn
    } else if n == 3 {
        LogLevel::Info
    } else if n == 4 {
        LogLevel::Debug
    } else {
        LogLevel::Trace
    }
}

impl From<LogLevel> for u8 {
    fn from(level: LogLevel) -> (r: u8) {
        match level {
            LogLevel::Off => 0,
            LogLevel::Error => 1,
            LogLevel::Warn => 2,
            LogLevel::Info => 3,
            LogLevel::Debug => 4,
            LogLevel::Trace => 5,
        }
    }
}

impl vstd::std_specs::convert::FromSpecImpl<LogLevel> for u8 {
    open spec fn obeys_from_spec() -> bool {
        true
    }

    open spec fn from_spec(level: LogLevel) -> u8 {
        level_number(level)
    }
}

impl From<u8> for LogLevel {
    fn from(level: u8) -> (r: LogLevel) {
        match level {
            0 => LogLevel::Off,
            1 => LogLevel::Error,
            2 => LogLevel::Warn,
            3 => LogLevel::Info,
            4 => LogLevel::Debug,
            _ => LogLevel::Trace,
        }
    }
}

impl vstd::std_specs::convert::FromSpecImpl<u8> for LogLevel {
    open spec fn obeys_from_spec() -> bool {
        true
    }

    open spec fn from_spec(n: u8) -> LogLevel {
        level_of(n)
    }
}

impl LogLevel {
    /// The tag printed before a message of this level.
    pub fn tag(&self) -> (r: &'static str)
        ensures
            r@ == match self {
                LogLevel::Off => "[OFF]"@,
                LogLevel::Error => "[ERROR]"@,
                LogLevel::Warn => "[WARN]"@,
                LogLevel::Info => "[INFO]"@,
                LogLevel::Debug => "[DEBUG]"@,
                LogLevel::Trace => "[TRACE]"@,
            },
    {
        match self {
            LogLevel::Off => "[OFF]",
            LogLevel::Error => "[ERROR]",
            LogLevel::Warn => "[WARN]",
            LogLevel::Info => "[INFO]",
            LogLevel::Debug => "[DEBUG]",
            LogLevel::Trace => "[TRACE]",
        }
    }
}

/// The current log level, kept as its number.
#[derive(Debug)]
pub struct Log {
    level: u8,
}

impl View for Log {
    type V = u8;

    closed spec fn view(&self) -> u8 {
        self.level
    }
}

/// Going from a level to its number and back gives the level.
pub proof fn lemma_level_round_trip(level: LogLevel)
    ensures
        level_of(level_number(level)) == level,
{
}

impl Log {
    /// A log that starts at `Trace`.
    pub fn new() -> (r: Log)
        ensures
            r@ == 5,
    {
        Log { level: 5 }
    }

    pub fn get(&self) -> (r: LogLevel)
        ensures
            r == level_of(self@),
    {
        LogLevel::from(self.level)
    }

    pub fn set(&mut self, level: LogLevel)
        ensures
            final(self)@ == level_number(level),
    {
        self.level = u8::from(level);
    }

    pub fn get_as_u8(&self) -> (r: u8)
        ensures
            r == self@,
    {
        self.level
    }
}

} // verus!
