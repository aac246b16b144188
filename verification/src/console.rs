use vstd::prelude::*;

verus! {

/// The log levels a kernel build can be configured with.
#[derive(Copy, Clone, Debug, PartialEq, Eq, Structural)]
pub enum LogLevel {
    Trace,
    Debug,
    Info,
    Warn,
    Error,
}

/// The least severity that gets printed for the configured level `log`:
/// 1 for TRACE up to 5 for ERROR, and 3 (INFO) when no known level is set.
pub fn set_log_status(log: Option<LogLevel>) -> (r: i32)
    ensures
        r == match log {
            Some(LogLevel::Trace) => 1i32,
            Some(LogLevel::Debug) => 2i32,
            Some(LogLevel::Info) => 3i32,
            Some(LogLevel::Warn) => 4i32,
            Some(LogLevel::Error) => 5i32,
            None => 3i32,
        },
{
    match log {
        Some(LogLevel::Trace) => 1,
        Some(LogLevel::Debug) => 2,
        Some(LogLevel::Info) => 3,
        Some(LogLevel::Warn) => 4,
        Some(LogLevel::Error) => 5,
        None => 3,
    }
}

} // verus!
