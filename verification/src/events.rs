//! The live notifications that the supervisor sends to its user interface:
//! the name under which each is sent, and what it carries.

use crate::text::optional_text;
use crate::types::ProcessStatus;
use vstd::prelude::*;
use vstd::string::StringExecFns;

verus! {

/// A process changed its status. `pid` is given once the process runs.
#[derive(Debug)]
pub struct StatusChanged {
    pub id: String,
    pub status: String,
    pub pid: Option<u32>,
}

pub struct StatusChangedView {
    pub id: Seq<char>,
    pub status: Seq<char>,
    pub pid: Option<u32>,
}

impl View for StatusChanged {
    type V = StatusChangedView;

    open spec fn view(&self) -> StatusChangedView {
        StatusChangedView { id: self.id@, status: self.status@, pid: self.pid }
    }
}

/// A shell job wrote a line, on its error stream where `is_error` is set.
#[derive(Debug)]
pub struct JobOutput {
    pub job_id: String,
    pub line: String,
    pub is_error: bool,
    pub timestamp: String,
}

/// A shell job ended with this exit code.
#[derive(Debug)]
pub struct JobDone {
    pub job_id: String,
    pub exit_code: i32,
}

/// The exit code that is reported where the job's process gave none.
pub const NO_EXIT_CODE: i32 = -1;

/// The name of the notification of a status change.
pub fn status_changed_event() -> (name: String)
    ensures
        name@ == "process:status_changed"@,
{
    String::from_str("process:status_changed")
}

/// The name of the notification of a log line of one process.
pub fn process_log_event(process_id: &str) -> (name: String)
    ensures
        name@ == "process:log:"@ + process_id@,
{
    let mut name = String::from_str("process:log:");
    name.append(process_id);
    name
}

/// The name of the notification of a job's output in one session.
pub fn terminal_output_event(session_id: &str) -> (name: String)
    ensures
        name@ == "terminal:output:"@ + session_id@,
{
    let mut name = String::from_str("terminal:output:");
    name.append(session_id);
    name
}

/// The name of the notification of a job's end in one session.
pub fn terminal_done_event(session_id: &str) -> (name: String)
    ensures
        name@ == "terminal:done:"@ + session_id@,
{
    let mut name = String::from_str("terminal:done:");
    name.append(session_id);
    name
}

/// What is sent when a process was started under `pid`.
pub fn running_event(process_id: &str, pid: u32) -> (e: StatusChanged)
    ensures
        e@ == (StatusChangedView {
            id: process_id@,
            status: ProcessStatus::Running.text(),
            pid: Some(pid),
        }),
{
    StatusChanged {
        id: String::from_str(process_id),
        status: ProcessStatus::Running.to_string(),
        pid: Some(pid),
    }
}

/// What is sent when a process was stopped.
pub fn stopped_event(process_id: &str) -> (e: StatusChanged)
    ensures
        e@ == (StatusChangedView {
            id: process_id@,
            status: ProcessStatus::Stopped.text(),
            pid: None,
        }),
{
    StatusChanged {
        id: String::from_str(process_id),
        status: ProcessStatus::Stopped.to_string(),
        pid: None,
    }
}

} // verus!
