//! The pure choices behind a structured log line: the label and the colour
//! each severity renders with.  Wiring them into a sink is the caller's
//! affair.

use vstd::prelude::*;

verus! {

/// A log record's severity.
#[derive(Clone, Copy, Debug, PartialEq, Eq, Structural)]
pub enum LogLevel {
    Trace,
    Debug,
    Info,
    Warn,
    Error,
}

/// The colour a severity renders with.
#[derive(Clone, Copy, Debug, PartialEq, Eq, Structural)]
pub enum LevelColor {
    /// A direct red/green/blue triple.
    Rgb(u8, u8, u8),
    Cyan,
    Green,
    Yellow,
    Red,
}

impl LogLevel {
    /// The five-column label the severity prints as.
    pub fn label(&self) -> (r: &'static str)
        ensures
            r@ == match *self {
                LogLevel::Trace => "TRACE"@,
                LogLevel::Debug => "DEBUG"@,
                LogLevel::Info => "INFO "@,
                LogLevel::Warn => "WARN "@,
                LogLevel::Error => "ERROR"@,
            },
    {
        match *self {
            LogLevel::Trace => "TRACE",
            LogLevel::Debug => "DEBUG",
            LogLevel::Info => "INFO ",
            LogLevel::Warn => "WARN ",
            LogLevel::Error => "ERROR",
        }
    }

    /// The colour the severity renders with: a muted grey for trace, then
    /// cyan, green, yellow and red in rising order of gravity.
    pub fn color(&self) -> (r: LevelColor)
        ensures
            r == match *self {
                LogLevel::Trace => LevelColor::Rgb(169, 169, 169),
                LogLevel::Debug => LevelColor::Cyan,
                LogLevel::Info => LevelColor::Green,
                LogLevel::Warn => LevelColor::Yellow,
                LogLevel::Error => LevelColor::Red,
            },
    {
        match *self {
            LogLevel::Trace => LevelColor::Rgb(169, 169, 169),
            LogLevel::Debug => LevelColor::Cyan,
            LogLevel::Info => LevelColor::Green,
            LogLevel::Warn => LevelColor::Yellow,
            LogLevel::Error => LevelColor::Red,
        }
    }
}

/// The colour of the dimmed parts of a log line (timestamp, file, line).
pub fn dimmed_color() -> (r: LevelColor)
    ensures
        r == LevelColor::Rgb(126, 126, 126),
{
    LevelColor::Rgb(126, 126, 126)
}

} // verus!
