//! Log levels and named loggers.
use vstd::prelude::*;

verus! {

/// The severity of a log line.
#[derive(Clone, Copy, Debug, PartialEq, Eq, Structural)]
pub enum LogLevel {
    Debug,
    Info,
    Warn,
    Error,
    Fatal,
}

impl LogLevel {
    /// The label of the level in a log line, padded to five columns.
    pub fn label(&self) -> (r: &'static str)
        ensures
            r@ == level_label(*self),
    {
        match self {
            LogLevel::Debug => "DEBUG",
            LogLevel::Info => " INFO",
            LogLevel::Warn => " WARN",
            LogLevel::Error => "ERROR",
            LogLevel::Fatal => "FATAL",
        }
    }
}

pub open spec fn level_label(l: LogLevel) -> Seq<char> {
    match l {
        LogLevel::Debug => "DEBUG"@,
        LogLevel::Info => " INFO"@,
        LogLevel::Warn => " WARN"@,
        LogLevel::Error => "ERROR"@,
        LogLevel::Fatal => "FATAL"@,
    }
}

/// A named logger.
#[derive(Debug)]
pub struct Logger {
    pub name: String,
    pub level: LogLevel,
}

impl Logger {
    /// A logger; it is called `Default` when no name is given.
    pub fn new(name: Option<String>, level: LogLevel) -> (r: Logger)
        ensures
            r.level == level,
            r.name@ == match name {
                Some(n) => n@,
                None => "Default"@,
            },
    {
        let name = match name {
            Some(n) => n,
            None => "Default".to_string(),
        };
        Logger { name, level }
    }

    /// Whether the logger writes its lines: only at the debug level.
    pub fn writes(&self) -> (r: bool)
        ensures
            r == (self.level == LogLevel::Debug),
    {
        self.level == LogLevel::Debug
    }
}

} // verus!
