//! The registry of managed processes and the lifecycle of each of them.
//!
//! The registry decides and records. The host program starts, signals and
//! reaps the operating-system processes: it asks for a `LaunchRequest`,
//! carries it out, and reports the `LaunchOutcome`; on a stop it is handed the
//! `ChildHandle` of the process that it has to end.

use crate::error::{ErrorView, SupervisorError};
use crate::string_map::StringMap;
use crate::text::{clone_optional, clone_strings, optional_text, texts};
use crate::types::{
    clone_env, env_view, ConfigView, ProcessConfig, ProcessState, ProcessStatus, StateView,
};
use std::collections::HashMap;
use vstd::prelude::*;
use vstd::string::StringExecFns;

verus! {

/// Stands for the operating-system handle of a started process, which the
/// host keeps: the process id is what the registry reads of it.
#[derive(Debug, Clone, Copy, PartialEq, Eq, Structural)]
pub struct ChildHandle {
    pub pid: u32,
}

/// One configured process and its current runtime state.
#[derive(Debug)]
pub struct ProcessInstance {
    pub id: String,
    pub name: String,
    pub command: String,
    pub args: Vec<String>,
    pub status: ProcessStatus,
    pub child: Option<ChildHandle>,
    pub pid: Option<u32>,
    pub auto_restart: bool,
    pub auto_start: bool,
    pub working_dir: Option<String>,
    pub env: Option<HashMap<String, String>>,
    pub start_time: Option<u64>,
    pub crash_count: u32,
    pub should_restart: bool,
}

pub struct InstanceView {
    pub id: Seq<char>,
    pub name: Seq<char>,
    pub command: Seq<char>,
    pub args: Seq<Seq<char>>,
    pub status: ProcessStatus,
    pub child: Option<ChildHandle>,
    pub pid: Option<u32>,
    pub auto_restart: bool,
    pub auto_start: bool,
    pub working_dir: Option<Seq<char>>,
    pub env: Option<Map<String, String>>,
    pub start_time: Option<u64>,
    pub crash_count: u32,
    pub should_restart: bool,
}

impl View for ProcessInstance {
    type V = InstanceView;

    open spec fn view(&self) -> InstanceView {
        InstanceView {
            id: self.id@,
            name: self.name@,
            command: self.command@,
            args: texts(self.args@),
            status: self.status,
            child: self.child,
            pid: self.pid,
            auto_restart: self.auto_restart,
            auto_start: self.auto_start,
            working_dir: optional_text(self.working_dir),
            env: env_view(self.env),
            start_time: self.start_time,
            crash_count: self.crash_count,
            should_restart: self.should_restart,
        }
    }
}

/// The milliseconds from `start` to `now`, and 0 where the clock went back.
pub open spec fn elapsed_ms(start: u64, now: u64) -> u64 {
    if now >= start {
        (now - start) as u64
    } else {
        0
    }
}

impl InstanceView {
    /// A process has a child handle exactly while it runs, and with the
    /// handle the pid of that child.
    pub open spec fn wf(self) -> bool {
        &&& self.status == ProcessStatus::Running <==> self.child is Some
        &&& self.child is Some <==> self.pid is Some
        &&& self.child matches Some(h) ==> self.pid == Some(h.pid)
    }

    /// A process that was never started, without environment overrides.
    pub open spec fn fresh(
        id: Seq<char>,
        name: Seq<char>,
        command: Seq<char>,
        args: Seq<Seq<char>>,
        working_dir: Option<Seq<char>>,
        auto_restart: bool,
        auto_start: bool,
    ) -> InstanceView {
        InstanceView {
            id,
            name,
            command,
            args,
            status: ProcessStatus::Stopped,
            child: None,
            pid: None,
            auto_restart,
            auto_start,
            working_dir,
            env: None,
            start_time: None,
            crash_count: 0,
            should_restart: false,
        }
    }

    /// The stopped process that a stored configuration describes: every
    /// field of the configuration is taken over, the environment overrides
    /// included.
    pub open spec fn from_config(c: ConfigView) -> InstanceView {
        InstanceView {
            env: c.env,
            ..InstanceView::fresh(
                c.id,
                c.name,
                c.command,
                c.args,
                c.working_dir,
                c.auto_restart,
                c.auto_start,
            )
        }
    }

    /// The process after the operating system started it as `pid` at `now`.
    pub open spec fn launched(self, pid: u32, now: u64) -> InstanceView {
        InstanceView {
            status: ProcessStatus::Running,
            child: Some(ChildHandle { pid }),
            pid: Some(pid),
            start_time: Some(now),
            crash_count: 0,
            should_restart: true,
            ..self
        }
    }

    /// The process after the operating system refused to start it.
    pub open spec fn failed_launch(self) -> InstanceView {
        InstanceView {
            status: ProcessStatus::Crashed,
            crash_count: (self.crash_count + 1) as u32,
            ..self
        }
    }

    /// The process after a stop.
    pub open spec fn stopped(self) -> InstanceView {
        InstanceView {
            status: ProcessStatus::Stopped,
            child: None,
            pid: None,
            should_restart: false,
            ..self
        }
    }

    /// The process with the given changes applied: a flag that is given is
    /// set, an empty directory clears the working directory, another one
    /// replaces it.
    pub open spec fn patched(
        self,
        auto_restart: Option<bool>,
        auto_start: Option<bool>,
        working_dir: Option<Seq<char>>,
    ) -> InstanceView {
        InstanceView {
            auto_restart: match auto_restart {
                Some(b) => b,
                None => self.auto_restart,
            },
            auto_start: match auto_start {
                Some(b) => b,
                None => self.auto_start,
            },
            working_dir: match working_dir {
                Some(d) => if d.len() == 0 {
                    None
                } else {
                    Some(d)
                },
                None => self.working_dir,
            },
            ..self
        }
    }

    pub open spec fn uptime_ms(self, now: u64) -> u64 {
        match self.start_time {
            Some(start) => elapsed_ms(start, now),
            None => 0,
        }
    }

    pub open spec fn state(self, now: u64) -> StateView {
        StateView {
            id: self.id,
            name: self.name,
            command: self.command,
            args: self.args,
            status: self.status.text(),
            pid: self.pid,
            auto_restart: self.auto_restart,
            auto_start: self.auto_start,
            working_dir: self.working_dir,
            uptime_ms: self.uptime_ms(now),
            crash_count: self.crash_count,
        }
    }

    /// What is stored of the process: the fields that it shares with its
    /// configuration, each as it stands.
    pub open spec fn config(self) -> ConfigView {
        ConfigView {
            id: self.id,
            name: self.name,
            command: self.command,
            args: self.args,
            auto_restart: self.auto_restart,
            auto_start: self.auto_start,
            working_dir: self.working_dir,
            env: self.env,
        }
    }

    pub open spec fn launch_request(self) -> LaunchRequestView {
        LaunchRequestView { program: self.command, args: self.args, working_dir: self.working_dir }
    }
}

/// What the host has to start: the program, its arguments, and the directory
/// to start it in, if one is set. Both output streams are to be piped.
#[derive(Debug)]
pub struct LaunchRequest {
    pub program: String,
    pub args: Vec<String>,
    pub working_dir: Option<String>,
}

pub struct LaunchRequestView {
    pub program: Seq<char>,
    pub args: Seq<Seq<char>>,
    pub working_dir: Option<Seq<char>>,
}

impl View for LaunchRequest {
    type V = LaunchRequestView;

    open spec fn view(&self) -> LaunchRequestView {
        LaunchRequestView {
            program: self.program@,
            args: texts(self.args@),
            working_dir: optional_text(self.working_dir),
        }
    }
}

/// How the host's attempt to start a process ended.
#[derive(Debug)]
pub enum LaunchOutcome {
    /// The operating system started the process under this id.
    Started { pid: u32 },
    /// The operating system refused; `message` holds its words.
    Failed { message: String },
}

/// A lower-case hexadecimal digit.
pub open spec fn is_lower_hex(c: char) -> bool {
    ('0' <= c <= '9') || ('a' <= c <= 'f')
}

/// The hyphenated form of a UUID: 32 lower-case hexadecimal digits in groups
/// of 8, 4, 4, 4 and 12.
pub open spec fn is_hyphenated_uuid(s: Seq<char>) -> bool {
    &&& s.len() == 36
    &&& forall|i: int|
        0 <= i < 36 ==> if i == 8 || i == 13 || i == 18 || i == 23 {
            #[trigger] s[i] == '-'
        } else {
            is_lower_hex(s[i])
        }
}

/// `uuid::Uuid::new_v4` followed by the `to_string` of the `Uuid`. The
/// contract claims the shape of the text only: the value is random, and two
/// calls may even return the same one. Where the operating system has no
/// random bytes to give, `new_v4` panics.
#[verifier::external_body]
fn fresh_id() -> (id: String)
    ensures
        is_hyphenated_uuid(id@),
{
    uuid::Uuid::new_v4().to_string()
}

impl ProcessInstance {
    /// A stopped process under a freshly drawn id.
    pub fn new(
        name: String,
        command: String,
        args: Vec<String>,
        auto_restart: bool,
        auto_start: bool,
    ) -> (p: ProcessInstance)
        ensures
            is_hyphenated_uuid(p.id@),
            p@ == InstanceView::fresh(
                p.id@,
                name@,
                command@,
                texts(args@),
                None,
                auto_restart,
                auto_start,
            ),
    {
        ProcessInstance::with_id(fresh_id(), name, command, args, None, auto_restart, auto_start)
    }

    /// A stopped process under the given id.
    pub fn with_id(
        id: String,
        name: String,
        command: String,
        args: Vec<String>,
        working_dir: Option<String>,
        auto_restart: bool,
        auto_start: bool,
    ) -> (p: ProcessInstance)
        ensures
            p@ == InstanceView::fresh(
                id@,
                name@,
                command@,
                texts(args@),
                optional_text(working_dir),
                auto_restart,
                auto_start,
            ),
            p@.wf(),
    {
        ProcessInstance {
            id,
            name,
            command,
            args,
            status: ProcessStatus::Stopped,
            child: None,
            pid: None,
            auto_restart,
            auto_start,
            working_dir,
            env: None,
            start_time: None,
            crash_count: 0,
            should_restart: false,
        }
    }

    /// The stopped process that a stored configuration describes, with the
    /// environment overrides of the configuration.
    pub fn from_config(config: &ProcessConfig) -> (p: ProcessInstance)
        ensures
            p@ == InstanceView::from_config(config@),
            p@.env == config@.env,
            p@.wf(),
    {
        let mut p = ProcessInstance::with_id(
            config.id.clone(),
            config.name.clone(),
            config.command.clone(),
            clone_strings(&config.args),
            clone_optional(&config.working_dir),
            config.auto_restart,
            config.auto_start,
        );
        p.env = clone_env(&config.env);
        p
    }

    /// The time since the last start, on a clock that reads `now_ms`.
    pub fn get_uptime_ms(&self, now_ms: u64) -> (ms: u64)
        ensures
            ms == self@.uptime_ms(now_ms),
    {
        match self.start_time {
            Some(start) => if now_ms >= start {
                now_ms - start
            } else {
                0
            },
            None => 0,
        }
    }

    pub fn to_state(&self, now_ms: u64) -> (s: ProcessState)
        ensures
            s@ == self@.state(now_ms),
    {
        ProcessState {
            id: self.id.clone(),
            name: self.name.clone(),
            command: self.command.clone(),
            args: clone_strings(&self.args),
            status: self.status.to_string(),
            pid: self.pid,
            auto_restart: self.auto_restart,
            auto_start: self.auto_start,
            working_dir: clone_optional(&self.working_dir),
            uptime_ms: self.get_uptime_ms(now_ms),
            crash_count: self.crash_count,
        }
    }

    /// What is to be stored of the process, the environment overrides
    /// included.
    pub fn to_config(&self) -> (c: ProcessConfig)
        ensures
            c@ == self@.config(),
            c@.env == self@.env,
    {
        ProcessConfig {
            id: self.id.clone(),
            name: self.name.clone(),
            command: self.command.clone(),
            args: clone_strings(&self.args),
            auto_restart: self.auto_restart,
            auto_start: self.auto_start,
            working_dir: clone_optional(&self.working_dir),
            env: clone_env(&self.env),
        }
    }

    pub fn to_launch_request(&self) -> (r: LaunchRequest)
        ensures
            r@ == self@.launch_request(),
    {
        LaunchRequest {
            program: self.command.clone(),
            args: clone_strings(&self.args),
            working_dir: clone_optional(&self.working_dir),
        }
    }
}

pub enum LaunchOutcomeView {
    Started { pid: u32 },
    Failed { message: Seq<char> },
}

impl View for LaunchOutcome {
    type V = LaunchOutcomeView;

    open spec fn view(&self) -> LaunchOutcomeView {
        match self {
            LaunchOutcome::Started { pid } => LaunchOutcomeView::Started { pid: *pid },
            LaunchOutcome::Failed { message } => LaunchOutcomeView::Failed { message: message@ },
        }
    }
}

/// What a restart asks of the host: the child to end first, if there is one,
/// and the process to start after that.
#[derive(Debug)]
pub struct RestartPlan {
    pub terminate: Option<ChildHandle>,
    pub launch: LaunchRequest,
}

/// The model of the registry: each known id with its process.
pub type Registry = Map<Seq<char>, InstanceView>;

/// A result with its error seen through the error's view.
pub open spec fn with_error_view<T>(r: Result<T, SupervisorError>) -> Result<T, ErrorView> {
    match r {
        Ok(t) => Ok(t),
        Err(e) => Err(e@),
    }
}

/// Whether a process may be started, and what is to be started.
pub open spec fn launch_decision(m: Registry, id: Seq<char>) -> Result<
    LaunchRequestView,
    ErrorView,
> {
    if !m.dom().contains(id) {
        Err(ErrorView::NotFound)
    } else if m[id].status == ProcessStatus::Running {
        Err(ErrorView::AlreadyRunning)
    } else {
        Ok(m[id].launch_request())
    }
}

/// What a spawn returns: the pid of the started process, or why none runs.
pub open spec fn spawn_result(m: Registry, id: Seq<char>, outcome: LaunchOutcomeView) -> Result<
    u32,
    ErrorView,
> {
    if !m.dom().contains(id) {
        Err(ErrorView::NotFound)
    } else if m[id].status == ProcessStatus::Running {
        Err(ErrorView::AlreadyRunning)
    } else {
        match outcome {
            LaunchOutcomeView::Started { pid } => Ok(pid),
            LaunchOutcomeView::Failed { message } => Err(
                ErrorView::SpawnFailure("Failed to spawn process: "@ + message),
            ),
        }
    }
}

/// The registry after a spawn: unchanged where the id is unknown or the
/// process runs already, else with the outcome recorded in that process.
pub open spec fn after_spawn(
    m: Registry,
    id: Seq<char>,
    outcome: LaunchOutcomeView,
    now: u64,
) -> Registry {
    if !m.dom().contains(id) || m[id].status == ProcessStatus::Running {
        m
    } else {
        match outcome {
            LaunchOutcomeView::Started { pid } => m.insert(id, m[id].launched(pid, now)),
            LaunchOutcomeView::Failed { message } => m.insert(id, m[id].failed_launch()),
        }
    }
}

/// The registry after a stop.
pub open spec fn after_stop(m: Registry, id: Seq<char>) -> Registry {
    if m.dom().contains(id) {
        m.insert(id, m[id].stopped())
    } else {
        m
    }
}

/// Every process of the registry is well formed and filed under its own id.
pub open spec fn registry_wf(m: Registry) -> bool {
    forall|k: Seq<char>| m.dom().contains(k) ==> (#[trigger] m[k]).wf() && m[k].id == k
}

/// A failed start can be counted: the counter of that process has room.
pub open spec fn can_record(m: Registry, id: Seq<char>, outcome: LaunchOutcomeView) -> bool {
    m.dom().contains(id) && m[id].status != ProcessStatus::Running && outcome is Failed
        ==> m[id].crash_count < u32::MAX
}

pub struct ProcessManager {
    processes: StringMap<ProcessInstance>,
}

impl ProcessManager {
    pub closed spec fn view(&self) -> Registry {
        Map::new(
            |k: Seq<char>| self.processes@.dom().contains(k),
            |k: Seq<char>| self.processes@[k]@,
        )
    }

    /// The ids in the order in which they were first registered.
    pub closed spec fn ids(&self) -> Seq<Seq<char>> {
        self.processes.key_order()
    }

    pub closed spec fn wf(&self) -> bool {
        &&& self.processes.wf()
        &&& registry_wf(self@)
    }

    /// What well-formedness says of the model.
    pub proof fn lemma_wf(&self)
        requires
            self.wf(),
        ensures
            registry_wf(self@),
            self@.dom().finite(),
            self.ids().no_duplicates(),
            self.ids().to_set() == self@.dom(),
            self.ids().len() == self@.dom().len(),
    {
        self.processes.lemma_positions();
        assert(self@.dom() =~= self.processes@.dom());
    }

    pub fn new() -> (m: ProcessManager)
        ensures
            m.wf(),
            m@ == Map::<Seq<char>, InstanceView>::empty(),
            m.ids() == Seq::<Seq<char>>::empty(),
    {
        let m = ProcessManager { processes: StringMap::new() };
        assert(m@ =~= Map::<Seq<char>, InstanceView>::empty());
        m
    }

    /// Files a process under its id, in place of any that was filed there.
    pub fn register(&mut self, process: ProcessInstance)
        requires
            old(self).wf(),
            process@.wf(),
        ensures
            final(self).wf(),
            final(self)@ == old(self)@.insert(process.id@, process@),
            final(self).ids() == (if old(self)@.dom().contains(process.id@) {
                old(self).ids()
            } else {
                old(self).ids().push(process.id@)
            }),
    {
        let key = process.id.clone();
        self.processes.insert(key, process);
        assert(self@ =~= old(self)@.insert(process.id@, process@));
    }

    /// Registers a new stopped process under a freshly drawn id, which is
    /// returned.
    pub fn add_process(
        &mut self,
        name: String,
        command: String,
        args: Vec<String>,
        working_dir: Option<String>,
        auto_restart: bool,
    ) -> (id: String)
        requires
            old(self).wf(),
        ensures
            final(self).wf(),
            is_hyphenated_uuid(id@),
            final(self)@ == old(self)@.insert(
                id@,
                InstanceView::fresh(
                    id@,
                    name@,
                    command@,
                    texts(args@),
                    optional_text(working_dir),
                    auto_restart,
                    false,
                ),
            ),
            final(self).ids() == (if old(self)@.dom().contains(id@) {
                old(self).ids()
            } else {
                old(self).ids().push(id@)
            }),
    {
        let mut process = ProcessInstance::new(name, command, args, auto_restart, false);
        process.working_dir = working_dir;
        let id = process.id.clone();
        self.register(process);
        id
    }

    pub fn get_process(&self, id: &str) -> (r: Option<&ProcessInstance>)
        requires
            self.wf(),
        ensures
            match r {
                Some(p) => self@.dom().contains(id@) && p@ == self@[id@],
                None => !self@.dom().contains(id@),
            },
    {
        self.processes.get(id)
    }

    /// The process of that id, to be changed in place. The registry is well
    /// formed again once the process is, under the id it had.
    pub fn get_process_mut(&mut self, id: &str) -> (r: Option<&mut ProcessInstance>)
        requires
            old(self).wf(),
        ensures
            final(self).ids() == old(self).ids(),
            match r {
                Some(p) => {
                    &&& old(self)@.dom().contains(id@)
                    &&& (*p)@ == old(self)@[id@]
                    &&& final(self)@ == old(self)@.insert(id@, (*final(p))@)
                    &&& (*final(p))@.wf() && (*final(p))@.id == id@ ==> final(self).wf()
                },
                None => {
                    &&& !old(self)@.dom().contains(id@)
                    &&& final(self)@ == old(self)@
                    &&& final(self).wf()
                },
            },
    {
        self.processes.get_mut(id)
    }

    /// Takes a process out of the registry. A child that it still has is
    /// not ended by this.
    pub fn remove_process(&mut self, id: &str) -> (r: Option<ProcessInstance>)
        requires
            old(self).wf(),
        ensures
            final(self).wf(),
            final(self)@ == old(self)@.remove(id@),
            final(self).ids() == (if old(self)@.dom().contains(id@) {
                old(self).ids().remove(old(self).ids().index_of(id@))
            } else {
                old(self).ids()
            }),
            match r {
                Some(p) => old(self)@.dom().contains(id@) && p@ == old(self)@[id@],
                None => !old(self)@.dom().contains(id@),
            },
    {
        let r = self.processes.remove(id);
        assert(self@ =~= old(self)@.remove(id@));
        r
    }

    /// The ids of all processes, in the order of `ids`.
    pub fn process_ids(&self) -> (r: Vec<String>)
        requires
            self.wf(),
        ensures
            texts(r@) == self.ids(),
    {
        let mut r: Vec<String> = Vec::new();
        let n = self.processes.len();
        let mut i: usize = 0;
        while i < n
            invariant
                self.wf(),
                n == self.ids().len(),
                i <= n,
                texts(r@) == self.ids().take(i as int),
            decreases n - i,
        {
            let (key, _) = self.processes.entry_at(i);
            r.push(key.clone());
            assert(texts(r@) == self.ids().take(i as int).push(key@));
            assert(self.ids().take(i as int).push(key@) == self.ids().take(i + 1));
            i += 1;
        }
        assert(self.ids().take(n as int) == self.ids());
        r
    }

    /// A snapshot of every process, in the order of `ids`, with the uptime
    /// read off a clock that shows `now_ms`.
    pub fn get_all_processes(&self, now_ms: u64) -> (r: Vec<ProcessState>)
        requires
            self.wf(),
        ensures
            r@.len() == self.ids().len(),
            forall|i: int|
                0 <= i < r@.len() ==> (#[trigger] r@[i])@ == self@[self.ids()[i]].state(now_ms),
    {
        let mut r: Vec<ProcessState> = Vec::new();
        let n = self.processes.len();
        let mut i: usize = 0;
        while i < n
            invariant
                self.wf(),
                n == self.ids().len(),
                i <= n,
                r@.len() == i,
                forall|j: int|
                    0 <= j < i ==> (#[trigger] r@[j])@ == self@[self.ids()[j]].state(now_ms),
            decreases n - i,
        {
            let (_, process) = self.processes.entry_at(i);
            r.push(process.to_state(now_ms));
            i += 1;
        }
        r
    }

    /// The configuration of every process, in the order of `ids`.
    pub fn get_all_configs(&self) -> (r: Vec<ProcessConfig>)
        requires
            self.wf(),
        ensures
            r@.len() == self.ids().len(),
            forall|i: int|
                0 <= i < r@.len() ==> (#[trigger] r@[i])@ == self@[self.ids()[i]].config()
                    && r@[i]@.env == self@[self.ids()[i]].env,
    {
        let mut r: Vec<ProcessConfig> = Vec::new();
        let n = self.processes.len();
        let mut i: usize = 0;
        while i < n
            invariant
                self.wf(),
                n == self.ids().len(),
                i <= n,
                r@.len() == i,
                forall|j: int|
                    0 <= j < i ==> (#[trigger] r@[j])@ == self@[self.ids()[j]].config()
                        && r@[j]@.env == self@[self.ids()[j]].env,
            decreases n - i,
        {
            let (_, process) = self.processes.entry_at(i);
            r.push(process.to_config());
            i += 1;
        }
        r
    }

    /// Decides whether the process may be started now and, if so, says what
    /// the host has to start. Nothing is recorded yet.
    pub fn launch_request(&self, id: &str) -> (r: Result<LaunchRequest, SupervisorError>)
        requires
            self.wf(),
        ensures
            match r {
                Ok(request) => launch_decision(self@, id@) == Ok::<LaunchRequestView, ErrorView>(
                    request@,
                ),
                Err(e) => launch_decision(self@, id@) == Err::<LaunchRequestView, ErrorView>(e@),
            },
    {
        match self.processes.get(id) {
            None => Err(SupervisorError::NotFound),
            Some(process) => {
                if process.status == ProcessStatus::Running {
                    Err(SupervisorError::AlreadyRunning)
                } else {
                    Ok(process.to_launch_request())
                }
            },
        }
    }

    /// Records how the start of a process ended, at a time `now_ms`.
    ///
    /// An unknown id fails with `NotFound`, a running process with
    /// `AlreadyRunning`, and neither changes the registry. Otherwise a
    /// started process becomes `Running` under its pid with the crash count
    /// back at 0, and a refused one becomes `Crashed` with the count raised
    /// by one and the refusal returned as `SpawnFailure`.
    pub fn spawn_process(&mut self, id: &str, outcome: LaunchOutcome, now_ms: u64) -> (r: Result<
        u32,
        SupervisorError,
    >)
        requires
            old(self).wf(),
            can_record(old(self)@, id@, outcome@),
        ensures
            final(self).wf(),
            final(self).ids() == old(self).ids(),
            final(self)@ == after_spawn(old(self)@, id@, outcome@, now_ms),
            with_error_view(r) == spawn_result(old(self)@, id@, outcome@),
            !old(self)@.dom().contains(id@) ==> (r matches Err(SupervisorError::NotFound)) && final(self)@
                == old(self)@,
            old(self)@.dom().contains(id@) && old(self)@[id@].status == ProcessStatus::Running
                ==> (r matches Err(SupervisorError::AlreadyRunning)) && final(self)@ == old(self)@,
    {
        let found = self.processes.get_mut(id);
        let r = match found {
            None => Err(SupervisorError::NotFound),
            Some(process) => {
                if process.status == ProcessStatus::Running {
                    Err(SupervisorError::AlreadyRunning)
                } else {
                    match outcome {
                        LaunchOutcome::Started { pid } => {
                            process.pid = Some(pid);
                            process.status = ProcessStatus::Running;
                            process.child = Some(ChildHandle { pid });
                            process.start_time = Some(now_ms);
                            process.crash_count = 0;
                            process.should_restart = true;
                            Ok(pid)
                        },
                        LaunchOutcome::Failed { message } => {
                            process.status = ProcessStatus::Crashed;
                            process.crash_count = process.crash_count + 1;
                            let mut text = String::from_str("Failed to spawn process: ");
                            text.append(message.as_str());
                            Err(SupervisorError::SpawnFailure(text))
                        },
                    }
                }
            },
        };
        assert(self@ =~= after_spawn(old(self)@, id@, outcome@, now_ms));
        r
    }

    /// Marks a process as stopped and hands out the child that the host has
    /// to end and wait for, if the process had one. Stopping a process that
    /// is not running is no error.
    pub fn stop_process(&mut self, id: &str) -> (r: Result<Option<ChildHandle>, SupervisorError>)
        requires
            old(self).wf(),
        ensures
            final(self).wf(),
            final(self).ids() == old(self).ids(),
            final(self)@ == after_stop(old(self)@, id@),
            match r {
                Ok(child) => old(self)@.dom().contains(id@) && child == old(self)@[id@].child,
                Err(e) => !old(self)@.dom().contains(id@) && e@ == ErrorView::NotFound,
            },
    {
        let found = self.processes.get_mut(id);
        let r = match found {
            None => Err(SupervisorError::NotFound),
            Some(process) => {
                process.should_restart = false;
                let child = process.child;
                process.child = None;
                process.status = ProcessStatus::Stopped;
                process.pid = None;
                Ok(child)
            },
        };
        assert(self@ =~= after_stop(old(self)@, id@));
        r
    }

    /// Stops a process and says what is to be started in its place. An
    /// unknown id fails with `NotFound` before anything is done.
    pub fn restart_process(&mut self, id: &str) -> (r: Result<RestartPlan, SupervisorError>)
        requires
            old(self).wf(),
        ensures
            final(self).wf(),
            final(self).ids() == old(self).ids(),
            final(self)@ == after_stop(old(self)@, id@),
            match r {
                Ok(plan) => {
                    &&& old(self)@.dom().contains(id@)
                    &&& plan.terminate == old(self)@[id@].child
                    &&& plan.launch@ == old(self)@[id@].launch_request()
                    &&& launch_decision(final(self)@, id@) == Ok::<LaunchRequestView, ErrorView>(
                        plan.launch@,
                    )
                },
                Err(e) => !old(self)@.dom().contains(id@) && e@ == ErrorView::NotFound,
            },
    {
        let terminate = match self.stop_process(id) {
            Ok(child) => child,
            Err(e) => {
                return Err(e);
            },
        };
        match self.launch_request(id) {
            Ok(launch) => Ok(RestartPlan { terminate, launch }),
            Err(e) => Err(e),
        }
    }
}

impl Default for ProcessManager {
    fn default() -> (m: ProcessManager)
        ensures
            m.wf(),
            m@ == Map::<Seq<char>, InstanceView>::empty(),
            m.ids() == Seq::<Seq<char>>::empty(),
    {
        ProcessManager::new()
    }
}

/// A process that runs can be stopped and started again: the stop succeeds
/// and leaves it `Stopped`, the start is then allowed, and once the operating
/// system has started it the spawn returns its pid and the process is
/// `Running` under that pid, in a registry that is still well formed.
pub proof fn lemma_stop_then_spawn(m: Registry, id: Seq<char>, pid: u32, now: u64)
    requires
        registry_wf(m),
        m.dom().contains(id),
        m[id].status == ProcessStatus::Running,
    ensures
        after_stop(m, id)[id].status == ProcessStatus::Stopped,
        after_stop(m, id)[id].child is None,
        registry_wf(after_stop(m, id)),
        launch_decision(after_stop(m, id), id) is Ok,
        spawn_result(after_stop(m, id), id, LaunchOutcomeView::Started { pid }) == Ok::<
            u32,
            ErrorView,
        >(pid),
        after_spawn(after_stop(m, id), id, LaunchOutcomeView::Started { pid }, now)[id].status
            == ProcessStatus::Running,
        after_spawn(after_stop(m, id), id, LaunchOutcomeView::Started { pid }, now)[id].pid
            == Some(pid),
        after_spawn(after_stop(m, id), id, LaunchOutcomeView::Started { pid }, now)[id].crash_count
            == 0,
        registry_wf(after_spawn(after_stop(m, id), id, LaunchOutcomeView::Started { pid }, now)),
{
}

/// A successful spawn leaves the crash count at 0, whatever it was, and a
/// refused one raises it by one.
pub proof fn lemma_spawn_counts_crashes(
    m: Registry,
    id: Seq<char>,
    outcome: LaunchOutcomeView,
    now: u64,
)
    requires
        m.dom().contains(id),
        m[id].status != ProcessStatus::Running,
        can_record(m, id, outcome),
    ensures
        outcome is Started ==> after_spawn(m, id, outcome, now)[id].crash_count == 0
            && after_spawn(m, id, outcome, now)[id].status == ProcessStatus::Running,
        outcome is Failed ==> after_spawn(m, id, outcome, now)[id].crash_count
            == m[id].crash_count + 1 && after_spawn(m, id, outcome, now)[id].status
            == ProcessStatus::Crashed && spawn_result(m, id, outcome) is Err,
{
}

/// Neither a spawn nor a stop breaks the registry, and both leave every
/// other process as it was.
pub proof fn lemma_lifecycle_keeps_registry(
    m: Registry,
    id: Seq<char>,
    outcome: LaunchOutcomeView,
    now: u64,
)
    requires
        registry_wf(m),
    ensures
        registry_wf(after_spawn(m, id, outcome, now)),
        registry_wf(after_stop(m, id)),
        after_spawn(m, id, outcome, now).dom() == m.dom(),
        after_stop(m, id).dom() == m.dom(),
        forall|other: Seq<char>|
            other != id && m.dom().contains(other) ==> after_spawn(m, id, outcome, now)[other]
                == m[other] && after_stop(m, id)[other] == m[other],
{
    assert(after_spawn(m, id, outcome, now).dom() =~= m.dom());
    assert(after_stop(m, id).dom() =~= m.dom());
}

/// A stored configuration read back into the registry gives the same
/// configuration when it is stored again, in every field: the environment
/// overrides come back as they went in.
pub proof fn lemma_config_round_trip(c: ConfigView)
    ensures
        InstanceView::from_config(c).config() == c,
        InstanceView::from_config(c).config().env == c.env,
        InstanceView::from_config(c).wf(),
{
}

} // verus!
