//! The plain records that the registry, the log store and the metrics probe
//! exchange with their callers, each with its mathematical view.

use crate::text::{optional_text, texts};
use std::collections::HashMap;
use vstd::prelude::*;
use vstd::string::StringExecFns;

verus! {

/// What is kept on disk about one managed process.
#[derive(Debug, Clone)]
pub struct ProcessConfig {
    pub id: String,
    pub name: String,
    pub command: String,
    pub args: Vec<String>,
    pub auto_restart: bool,
    pub auto_start: bool,
    pub working_dir: Option<String>,
    pub env: Option<HashMap<String, String>>,
}

/// The environment overrides of a process, as the map that they hold.
pub open spec fn env_view(env: Option<HashMap<String, String>>) -> Option<Map<String, String>> {
    match env {
        Some(overrides) => Some(overrides@),
        None => None,
    }
}

/// A `ProcessConfig` seen through the views of its fields, none left out.
pub struct ConfigView {
    pub id: Seq<char>,
    pub name: Seq<char>,
    pub command: Seq<char>,
    pub args: Seq<Seq<char>>,
    pub auto_restart: bool,
    pub auto_start: bool,
    pub working_dir: Option<Seq<char>>,
    pub env: Option<Map<String, String>>,
}

impl View for ProcessConfig {
    type V = ConfigView;

    open spec fn view(&self) -> ConfigView {
        ConfigView {
            id: self.id@,
            name: self.name@,
            command: self.command@,
            args: texts(self.args@),
            auto_restart: self.auto_restart,
            auto_start: self.auto_start,
            working_dir: optional_text(self.working_dir),
            env: env_view(self.env),
        }
    }
}

/// A copy of the environment overrides.
pub fn clone_env(env: &Option<HashMap<String, String>>) -> (r: Option<HashMap<String, String>>)
    ensures
        env_view(r) == env_view(*env),
{
    match env {
        Some(overrides) => Some(overrides.clone()),
        None => None,
    }
}

#[derive(Debug, Clone, Copy, PartialEq, Eq, Structural)]
pub enum ProcessStatus {
    Running,
    Stopped,
    Crashed,
}

impl ProcessStatus {
    /// The status as it is shown and sent: the variant's name.
    pub open spec fn text(self) -> Seq<char> {
        match self {
            ProcessStatus::Running => "Running"@,
            ProcessStatus::Stopped => "Stopped"@,
            ProcessStatus::Crashed => "Crashed"@,
        }
    }

    pub fn to_string(&self) -> (s: String)
        ensures
            s@ == self.text(),
    {
        match self {
            ProcessStatus::Running => String::from_str("Running"),
            ProcessStatus::Stopped => String::from_str("Stopped"),
            ProcessStatus::Crashed => String::from_str("Crashed"),
        }
    }

    /// The three texts differ, so a status can be read back from its text.
    pub proof fn lemma_text_is_injective(a: ProcessStatus, b: ProcessStatus)
        requires
            a.text() == b.text(),
        ensures
            a == b,
    {
        reveal_strlit("Running");
        reveal_strlit("Stopped");
        reveal_strlit("Crashed");
        assert("Running"@[0] == 'R');
        assert("Stopped"@[0] == 'S');
        assert("Crashed"@[0] == 'C');
    }
}

/// A snapshot of one managed process, as listed to the caller.
#[derive(Debug, Clone)]
pub struct ProcessState {
    pub id: String,
    pub name: String,
    pub command: String,
    pub args: Vec<String>,
    pub status: String,
    pub pid: Option<u32>,
    pub auto_restart: bool,
    pub auto_start: bool,
    pub working_dir: Option<String>,
    pub uptime_ms: u64,
    pub crash_count: u32,
}

pub struct StateView {
    pub id: Seq<char>,
    pub name: Seq<char>,
    pub command: Seq<char>,
    pub args: Seq<Seq<char>>,
    pub status: Seq<char>,
    pub pid: Option<u32>,
    pub auto_restart: bool,
    pub auto_start: bool,
    pub working_dir: Option<Seq<char>>,
    pub uptime_ms: u64,
    pub crash_count: u32,
}

impl View for ProcessState {
    type V = StateView;

    open spec fn view(&self) -> StateView {
        StateView {
            id: self.id@,
            name: self.name@,
            command: self.command@,
            args: texts(self.args@),
            status: self.status@,
            pid: self.pid,
            auto_restart: self.auto_restart,
            auto_start: self.auto_start,
            working_dir: optional_text(self.working_dir),
            uptime_ms: self.uptime_ms,
            crash_count: self.crash_count,
        }
    }
}

/// The memory part of a reading of one process: the resident size in bytes
/// as the snapshot gave it, the same in whole megabytes, and the machine's
/// total memory in bytes.
#[derive(Debug, Clone, Copy, PartialEq, Eq, Structural)]
pub struct ProcessMetrics {
    pub memory_mb: u64,
    pub memory_bytes: u64,
    pub total_memory: u64,
}

/// One captured line of output.
#[derive(Debug, Clone)]
pub struct LogEntry {
    pub timestamp: String,
    pub level: String,
    pub message: String,
}

pub struct LogEntryView {
    pub timestamp: Seq<char>,
    pub level: Seq<char>,
    pub message: Seq<char>,
}

impl View for LogEntry {
    type V = LogEntryView;

    open spec fn view(&self) -> LogEntryView {
        LogEntryView { timestamp: self.timestamp@, level: self.level@, message: self.message@ }
    }
}

} // verus!
