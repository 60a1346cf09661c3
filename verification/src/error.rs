//! The ways in which an operation of the core can fail.

use vstd::prelude::*;
use vstd::string::StringExecFns;

verus! {

/// A typed failure. No operation ends the process on a resource error: each
/// returns one of these.
#[derive(Clone, Copy, Debug, PartialEq, Eq, Structural)]
pub enum CoreError {
    /// No live session has the identifier.
    SessionNotFound,
    /// No pseudo-terminal could be had, or no fresh identifier.
    PtyCreationFailure,
    /// The operating system refused a read, a write or a resize.
    IOFailure,
    /// The path has no repository metadata directory.
    NotAGitRepository,
    /// The filesystem watch could not be set up.
    WatchSetupFailure,
    /// The child process has no process identifier to ask for.
    ProcessIdUnavailable,
    /// The platform has no way to answer the question.
    UnsupportedPlatform,
}

/// The text shown for each failure.
pub open spec fn message_text(e: CoreError) -> Seq<char> {
    match e {
        CoreError::SessionNotFound => "Session not found"@,
        CoreError::PtyCreationFailure => "Failed to create terminal"@,
        CoreError::IOFailure => "Terminal I/O failed"@,
        CoreError::NotAGitRepository => "Not a git repository"@,
        CoreError::WatchSetupFailure => "Failed to watch git directory"@,
        CoreError::ProcessIdUnavailable => "Failed to get process ID"@,
        CoreError::UnsupportedPlatform => "Getting terminal cwd is only supported on Linux"@,
    }
}

impl CoreError {
    /// The text shown for this failure.
    pub fn message(&self) -> (r: String)
        ensures
            r@ == message_text(*self),
    {
        match self {
            CoreError::SessionNotFound => String::from_str("Session not found"),
            CoreError::PtyCreationFailure => String::from_str("Failed to create terminal"),
            CoreError::IOFailure => String::from_str("Terminal I/O failed"),
            CoreError::NotAGitRepository => String::from_str("Not a git repository"),
            CoreError::WatchSetupFailure => String::from_str("Failed to watch git directory"),
            CoreError::ProcessIdUnavailable => String::from_str("Failed to get process ID"),
            CoreError::UnsupportedPlatform => String::from_str(
                "Getting terminal cwd is only supported on Linux",
            ),
        }
    }
}

} // verus!
