//! The failures that the supervisor reports to its caller.

use vstd::prelude::*;
use vstd::string::StringExecFns;

verus! {

#[derive(Debug, Clone)]
pub enum SupervisorError {
    /// No process or job of that id is known.
    NotFound,
    /// The process is running, so it is not started again.
    AlreadyRunning,
    /// The operating system refused to start a process; the text says what
    /// was to be started and holds the operating system's words.
    SpawnFailure(String),
    /// A log file could not be read, written or deleted.
    IoFailure(String),
    /// The new working directory is missing or is no directory.
    PathResolutionFailure(String),
    /// A lock was found poisoned.
    LockContention(String),
}

pub enum ErrorView {
    NotFound,
    AlreadyRunning,
    SpawnFailure(Seq<char>),
    IoFailure(Seq<char>),
    PathResolutionFailure(Seq<char>),
    LockContention(Seq<char>),
}

impl View for SupervisorError {
    type V = ErrorView;

    open spec fn view(&self) -> ErrorView {
        match self {
            SupervisorError::NotFound => ErrorView::NotFound,
            SupervisorError::AlreadyRunning => ErrorView::AlreadyRunning,
            SupervisorError::SpawnFailure(m) => ErrorView::SpawnFailure(m@),
            SupervisorError::IoFailure(m) => ErrorView::IoFailure(m@),
            SupervisorError::PathResolutionFailure(m) => ErrorView::PathResolutionFailure(m@),
            SupervisorError::LockContention(m) => ErrorView::LockContention(m@),
        }
    }
}

impl ErrorView {
    /// The words in which the failure is shown to the user.
    pub open spec fn message(self) -> Seq<char> {
        match self {
            ErrorView::NotFound => "Process not found"@,
            ErrorView::AlreadyRunning => "Process is already running"@,
            ErrorView::SpawnFailure(m) => m,
            ErrorView::IoFailure(m) => m,
            ErrorView::PathResolutionFailure(m) => m,
            ErrorView::LockContention(m) => m,
        }
    }
}

impl SupervisorError {
    pub fn message(&self) -> (s: String)
        ensures
            s@ == self@.message(),
    {
        match self {
            SupervisorError::NotFound => String::from_str("Process not found"),
            SupervisorError::AlreadyRunning => String::from_str("Process is already running"),
            SupervisorError::SpawnFailure(m) => m.clone(),
            SupervisorError::IoFailure(m) => m.clone(),
            SupervisorError::PathResolutionFailure(m) => m.clone(),
            SupervisorError::LockContention(m) => m.clone(),
        }
    }
}

} // verus!
