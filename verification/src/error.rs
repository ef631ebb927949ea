//! Error taxonomy of the session manager.

use vstd::prelude::*;

verus! {

/// Why a session-manager operation failed.
///
/// `NotFound` is returned for every operation against an identifier that is
/// not in the registry.  `Closed` is returned by a poll-read only when the
/// delivery channel is disconnected and nothing remains buffered, so a caller
/// always receives the final bytes of a dead session first.  The remaining
/// variants carry the message of the underlying OS failure.
#[derive(Debug, Clone, PartialEq, Eq)]
pub enum TerminalError {
    /// No session with the given identifier exists.
    NotFound,
    /// The session's process is gone and all buffered output was drained.
    Closed,
    /// The pseudo-terminal could not be opened or resized.
    Os(String),
    /// The shell process could not be spawned.
    Spawn(String),
    /// A kernel write or flush failed, typically because the child exited.
    Write(String),
}

impl TerminalError {
    /// A human-readable description, for callers that surface errors as text.
    pub fn describe(&self) -> (r: String)
        ensures
            r@ == match self {
                TerminalError::NotFound => "session not found"@,
                TerminalError::Closed => "session closed"@,
                TerminalError::Os(m) => m@,
                TerminalError::Spawn(m) => m@,
                TerminalError::Write(m) => m@,
            },
    {
        match self {
            TerminalError::NotFound => String::from_str("session not found"),
            TerminalError::Closed => String::from_str("session closed"),
            TerminalError::Os(m) => m.clone(),
            TerminalError::Spawn(m) => m.clone(),
            TerminalError::Write(m) => m.clone(),
        }
    }
}

} // verus!
