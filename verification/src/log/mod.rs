//! Log records as the kernel and user space exchange them: the metadata of an event, its
//! fields, and the one-letter codes of the log levels.

pub mod collector;

pub use collector::LogCollector;

use vstd::prelude::*;

use crate::error::{Error, Result};
use crate::time::tsc::Tsc;

verus! {

/// The level of a log event, from the most severe to the most verbose.
#[derive(Clone, Copy, Debug, PartialEq, Eq, Structural)]
pub enum LogLevel {
    /// An error.
    Error,
    /// A warning.
    Warn,
    /// An informational message.
    Info,
    /// A message for debugging.
    Debug,
    /// A detailed trace.
    Trace,
}

/// The one-letter code of a log level.
pub open spec fn spec_level_symbol(level: LogLevel) -> char {
    match level {
        LogLevel::Error => 'E',
        LogLevel::Warn => 'W',
        LogLevel::Info => 'I',
        LogLevel::Debug => 'D',
        LogLevel::Trace => 'T',
    }
}

/// The one-letter code of the log level `level`.
pub fn level_into_symbol(level: &LogLevel) -> (r: char)
    ensures
        r == spec_level_symbol(*level),
{
    match *level {
        LogLevel::Error => 'E',
        LogLevel::Warn => 'W',
        LogLevel::Info => 'I',
        LogLevel::Debug => 'D',
        LogLevel::Trace => 'T',
    }
}

/// The log level of the one-letter code `level`.
/// Returns `Error::InvalidArgument` where no level has that code.
pub fn level_try_from_symbol(level: char) -> (r: Result<LogLevel>)
    ensures
        match r {
            Ok(l) => spec_level_symbol(l) == level,
            Err(e) => e == Error::InvalidArgument
                && forall|l: LogLevel| spec_level_symbol(l) != level,
        },
{
    match level {
        'E' => Ok(LogLevel::Error),
        'W' => Ok(LogLevel::Warn),
        'I' => Ok(LogLevel::Info),
        'D' => Ok(LogLevel::Debug),
        'T' => Ok(LogLevel::Trace),
        _ => Err(Error::InvalidArgument),
    }
}

/// Codes tell levels apart, so reading back the code of a level gives that level.
pub proof fn lemma_level_symbol_round_trip(level: LogLevel, other: LogLevel)
    ensures
        spec_level_symbol(level) == spec_level_symbol(other) ==> level == other,
{
}

/// Where and when a log event happened, and its level.
#[derive(Clone, Copy, Debug)]
pub struct LogMetadata<'a> {
    /// The source file of the event, where known.
    file: Option<&'a str>,
    /// The line in the source file, where known.
    line: Option<u32>,
    /// The one-letter code of the level.
    level: char,
    /// The part of the system that logged the event.
    target: &'a str,
    /// The time stamp counter when the event happened.
    timestamp: Tsc,
}

impl<'a> LogMetadata<'a> {
    /// The source file of the event.
    pub closed spec fn spec_file(&self) -> Option<&'a str> {
        self.file
    }

    /// The line in the source file.
    pub closed spec fn spec_line(&self) -> Option<u32> {
        self.line
    }

    /// The one-letter code of the level.
    pub closed spec fn spec_level(&self) -> char {
        self.level
    }

    /// The part of the system that logged the event.
    pub closed spec fn spec_target(&self) -> &'a str {
        self.target
    }

    /// The time stamp counter when the event happened.
    pub closed spec fn spec_timestamp(&self) -> Tsc {
        self.timestamp
    }

    /// The metadata of an event of level `level` from `target`, logged at `file`:`line`
    /// when the time stamp counter read `timestamp`.
    pub fn new(file: Option<&'a str>, line: Option<u32>, level: LogLevel, target: &'a str, timestamp: Tsc) -> (r: Self)
        ensures
            r.spec_file() == file,
            r.spec_line() == line,
            r.spec_level() == spec_level_symbol(level),
            r.spec_target() == target,
            r.spec_timestamp() == timestamp,
    {
        LogMetadata { file, line, level: level_into_symbol(&level), target, timestamp }
    }

    /// The source file of the event, where known.
    pub fn file(&self) -> (r: Option<&'a str>)
        ensures
            r == self.spec_file(),
    {
        self.file
    }

    /// The line in the source file, where known.
    pub fn line(&self) -> (r: Option<u32>)
        ensures
            r == self.spec_line(),
    {
        self.line
    }

    /// The level of the event. Returns `Error::InvalidArgument` where the stored code
    /// names no level.
    pub fn level(&self) -> (r: Result<LogLevel>)
        ensures
            match r {
                Ok(l) => spec_level_symbol(l) == self.spec_level(),
                Err(e) => e == Error::InvalidArgument
                    && forall|l: LogLevel| spec_level_symbol(l) != self.spec_level(),
            },
    {
        level_try_from_symbol(self.level)
    }

    /// The part of the system that logged the event.
    pub fn target(&self) -> (r: &'a str)
        ensures
            r == self.spec_target(),
    {
        self.target
    }

    /// The time stamp counter when the event happened.
    pub fn timestamp(&self) -> (r: Tsc)
        ensures
            r == self.spec_timestamp(),
    {
        self.timestamp
    }
}

/// The value of a field of a log event.
#[derive(Clone, Copy, Debug)]
pub enum LogFieldValue<'a> {
    /// A boolean.
    Bool(bool),
    /// A signed integer.
    I64(i64),
    /// A string.
    Str(&'a str),
    /// An unsigned integer.
    U64(u64),
    /// A value given by its debug text, which follows the field as a sequence of strings.
    VecStr,
}

/// A field of a log event: its name and its value.
#[derive(Clone, Copy, Debug)]
pub struct LogField<'a>(&'a str, LogFieldValue<'a>);

impl<'a> LogField<'a> {
    /// The name of the field.
    pub closed spec fn spec_name(&self) -> &'a str {
        self.0
    }

    /// The value of the field.
    pub closed spec fn spec_value(&self) -> LogFieldValue<'a> {
        self.1
    }

    /// The field `name` with the value `value`.
    pub fn new(name: &'a str, value: LogFieldValue<'a>) -> (r: Self)
        ensures
            r.spec_name() == name,
            r.spec_value() == value,
    {
        LogField(name, value)
    }

    /// The name of the field.
    pub fn name(&self) -> (r: &'a str)
        ensures
            r == self.spec_name(),
    {
        self.0
    }

    /// The value of the field.
    pub fn value(&self) -> (r: &LogFieldValue<'a>)
        ensures
            *r == self.spec_value(),
    {
        &self.1
    }
}

} // verus!
