//! The lines written to the server's log.

use vstd::prelude::*;
use vstd::string::*;

verus! {

/// How a log line is marked.
#[derive(Debug, Clone, Copy, PartialEq, Eq, Structural)]
pub enum LogLevel {
    Success,
    Warning,
    Error,
}

/// The mark that opens a log line of a level.
pub open spec fn level_mark(level: LogLevel) -> Seq<char> {
    match level {
        LogLevel::Success => "[ SUCCESS ] "@,
        LogLevel::Warning => "[ WARNING ] "@,
        LogLevel::Error => "[ ERROR ] "@,
    }
}

/// A log line: the level's mark, the time stamp, " - ", and the message.
pub fn log_line(level: LogLevel, stamp: &str, message: &str) -> (r: String)
    ensures
        r@ == level_mark(level) + stamp@ + " - "@ + message@,
{
    let mut r = String::new();
    match level {
        LogLevel::Success => r.append("[ SUCCESS ] "),
        LogLevel::Warning => r.append("[ WARNING ] "),
        LogLevel::Error => r.append("[ ERROR ] "),
    }
    r.append(stamp);
    r.append(" - ");
    r.append(message);
    r
}

/// The message logged when writing a row failed.
pub fn failure_message(error: &str) -> (r: String)
    ensures
        r@ == "Uh oh, "@ + error@,
{
    let mut r = String::new();
    r.append("Uh oh, ");
    r.append(error);
    r
}

} // verus!
