//! What the log sink is to be, decided from the configuration.

use crate::config::LogConfig;
use vstd::prelude::*;

verus! {

/// How much is logged.
#[derive(Debug, Clone, Copy, PartialEq, Eq, Structural)]
pub enum Level {
    Error,
    Warn,
    Info,
    Debug,
    Trace,
}

/// Where log lines go.
#[derive(Debug, Clone, PartialEq, Eq)]
pub enum Sink {
    /// To standard output.
    Console,
    /// To the file at `path`.
    File { path: String },
}

/// Everything needed to set a logger up.
#[derive(Debug, Clone, PartialEq, Eq)]
pub struct LoggerPlan {
    pub sink: Sink,
    pub level: Level,
}

/// The layout of one log line: date, level, target, message, line break.
pub fn log_pattern() -> (pattern: &'static str)
    ensures
        pattern@ == "{d} {l} {t} - {m}{n}"@,
{
    "{d} {l} {t} - {m}{n}"
}

impl Sink {
    /// The name the sink's appender is registered under: `logfile` for a
    /// file, `stdout` for the console.
    pub fn appender(&self) -> (name: &'static str)
        ensures
            name@ == match *self {
                Sink::Console => "stdout"@,
                Sink::File { .. } => "logfile"@,
            },
    {
        match self {
            Sink::Console => "stdout",
            Sink::File { .. } => "logfile",
        }
    }
}

/// Decides the logger's setup: lines at level `Info` and above go to the
/// configured file, or to the console when no log sink is configured.
pub fn logger_plan(log_config: Option<LogConfig>) -> (plan: LoggerPlan)
    ensures
        plan.level == Level::Info,
        plan.sink == match log_config {
            Some(sink) => Sink::File { path: sink.log_path },
            None => Sink::Console,
        },
{
    match log_config {
        Some(sink) => LoggerPlan { sink: Sink::File { path: sink.log_path }, level: Level::Info },
        None => LoggerPlan { sink: Sink::Console, level: Level::Info },
    }
}

} // verus!
