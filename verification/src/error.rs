//! What can go wrong in a session.
use vstd::prelude::*;

verus! {

/// One of the two logs that a session keeps.
#[derive(Debug, Clone, Copy, PartialEq, Eq, Structural)]
pub enum Log {
    /// The log of successful tasks.
    Successful,
    /// The log of failed tasks.
    Failed,
}

/// Errors that a session reports.
#[derive(Debug, Clone, Copy, PartialEq, Eq, Structural)]
pub enum SessionError {
    /// A task and its outcome cannot be written as a line of a log.
    Encode,
    /// A line of a log cannot be read back. Lines are counted from zero.
    Decode { log: Log, line: usize },
    /// The system clock stands before a time that was read from it earlier.
    Clock,
}

} // verus!
