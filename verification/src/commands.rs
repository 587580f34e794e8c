//! The operations that the supervisor offers to its user interface, each as
//! the change of state that it makes and what it asks the host to do or to
//! send.

use crate::error::{ErrorView, SupervisorError};
use crate::events::{running_event, stopped_event, JobDone, StatusChanged, StatusChangedView};
use crate::log_handler::{entry_views, read_result, LogHandler};
use crate::monitoring::{sample_result, snapshot_memory, snapshot_total_memory, Monitoring};
use crate::process_manager::{
    after_spawn, after_stop, can_record, launch_decision, spawn_result, ChildHandle, InstanceView,
    LaunchOutcome, LaunchOutcomeView, LaunchRequest, LaunchRequestView, ProcessInstance,
    ProcessManager, Registry,
};
use crate::terminal::{after_get_cwd, cwd_of, TerminalJob, TerminalManager};
use crate::text::{optional_text, split_whitespace, texts, tokens};
use crate::types::{
    ConfigView, LogEntry, ProcessConfig, ProcessMetrics, ProcessState, ProcessStatus,
};
use vstd::prelude::*;
use vstd::string::StringExecFns;

verus! {

/// How many entries of a log are shown.
pub const LOG_LIMIT: usize = 1000;

/// A process that was started, and the notification to send of it.
#[derive(Debug)]
pub struct StartedProcess {
    pub pid: u32,
    pub event: StatusChanged,
}

/// A process that was stopped: the child that the host has to end and wait
/// for, if there is one, and the notification to send.
#[derive(Debug)]
pub struct StoppedProcess {
    pub id: String,
    pub terminate: Option<ChildHandle>,
    pub event: StatusChanged,
}

/// A process to start.
#[derive(Debug)]
pub struct StartRequest {
    pub id: String,
    pub request: LaunchRequest,
}

/// A snapshot of every managed process.
pub fn get_processes(manager: &ProcessManager, now_ms: u64) -> (r: Vec<ProcessState>)
    requires
        manager.wf(),
    ensures
        r@.len() == manager.ids().len(),
        forall|i: int|
            0 <= i < r@.len() ==> (#[trigger] r@[i])@ == manager@[manager.ids()[i]].state(now_ms),
{
    manager.get_all_processes(now_ms)
}

/// Records how the start of a process ended and says what to send of it:
/// a process that now runs is announced as `Running` under its pid.
pub fn start_process(
    manager: &mut ProcessManager,
    process_id: &str,
    outcome: LaunchOutcome,
    now_ms: u64,
) -> (r: Result<StartedProcess, SupervisorError>)
    requires
        old(manager).wf(),
        can_record(old(manager)@, process_id@, outcome@),
    ensures
        final(manager).wf(),
        final(manager).ids() == old(manager).ids(),
        final(manager)@ == after_spawn(old(manager)@, process_id@, outcome@, now_ms),
        match r {
            Ok(started) => {
                &&& spawn_result(old(manager)@, process_id@, outcome@) == Ok::<u32, ErrorView>(
                    started.pid,
                )
                &&& started.event@ == (StatusChangedView {
                    id: process_id@,
                    status: ProcessStatus::Running.text(),
                    pid: Some(started.pid),
                })
            },
            Err(e) => spawn_result(old(manager)@, process_id@, outcome@) == Err::<u32, ErrorView>(
                e@,
            ),
        },
{
    match manager.spawn_process(process_id, outcome, now_ms) {
        Ok(pid) => Ok(StartedProcess { pid, event: running_event(process_id, pid) }),
        Err(e) => Err(e),
    }
}

/// Stops a process and says whom to end and what to send.
pub fn stop_process(manager: &mut ProcessManager, process_id: &str) -> (r: Result<
    StoppedProcess,
    SupervisorError,
>)
    requires
        old(manager).wf(),
    ensures
        final(manager).wf(),
        final(manager).ids() == old(manager).ids(),
        final(manager)@ == after_stop(old(manager)@, process_id@),
        match r {
            Ok(stopped) => {
                &&& old(manager)@.dom().contains(process_id@)
                &&& stopped.id@ == process_id@
                &&& stopped.terminate == old(manager)@[process_id@].child
                &&& stopped.event@ == (StatusChangedView {
                    id: process_id@,
                    status: ProcessStatus::Stopped.text(),
                    pid: None,
                })
            },
            Err(e) => !old(manager)@.dom().contains(process_id@) && e@ == ErrorView::NotFound,
        },
{
    match manager.stop_process(process_id) {
        Ok(terminate) => Ok(
            StoppedProcess {
                id: String::from_str(process_id),
                terminate,
                event: stopped_event(process_id),
            },
        ),
        Err(e) => Err(e),
    }
}

/// Registers a new process, which is not restarted on its own.
pub fn add_process(
    manager: &mut ProcessManager,
    name: String,
    command: String,
    args: Vec<String>,
    working_dir: Option<String>,
) -> (id: String)
    requires
        old(manager).wf(),
    ensures
        final(manager).wf(),
        final(manager)@ == old(manager)@.insert(
            id@,
            InstanceView::fresh(
                id@,
                name@,
                command@,
                texts(args@),
                optional_text(working_dir),
                false,
                false,
            ),
        ),
{
    manager.add_process(name, command, args, working_dir, false)
}

/// Takes a process out of the registry, and names the child that the host
/// has to end where the process was running. An unknown id changes nothing.
pub fn remove_process(manager: &mut ProcessManager, process_id: &str) -> (terminate: Option<
    ChildHandle,
>)
    requires
        old(manager).wf(),
    ensures
        final(manager).wf(),
        final(manager)@ == old(manager)@.remove(process_id@),
        terminate == (if old(manager)@.dom().contains(process_id@) {
            old(manager)@[process_id@].child
        } else {
            None
        }),
{
    let terminate = match manager.stop_process(process_id) {
        Ok(child) => child,
        Err(_) => None,
    };
    manager.remove_process(process_id);
    assert(manager@ =~= old(manager)@.remove(process_id@));
    terminate
}

/// The registry after a patch of one process: an unknown id changes nothing.
pub open spec fn after_update(
    m: Registry,
    id: Seq<char>,
    auto_restart: Option<bool>,
    auto_start: Option<bool>,
    working_dir: Option<Seq<char>>,
) -> Registry {
    if m.dom().contains(id) {
        m.insert(id, m[id].patched(auto_restart, auto_start, working_dir))
    } else {
        m
    }
}

/// Changes the flags and the working directory of a process, each only
/// where a value is given; an empty working directory clears it.
pub fn update_process(
    manager: &mut ProcessManager,
    process_id: &str,
    auto_restart: Option<bool>,
    auto_start: Option<bool>,
    working_dir: Option<String>,
)
    requires
        old(manager).wf(),
    ensures
        final(manager).wf(),
        final(manager).ids() == old(manager).ids(),
        final(manager)@ == after_update(
            old(manager)@,
            process_id@,
            auto_restart,
            auto_start,
            optional_text(working_dir),
        ),
{
    proof {
        manager.lemma_wf();
    }
    let found = manager.get_process_mut(process_id);
    match found {
        Some(process) => {
            match auto_restart {
                Some(value) => {
                    process.auto_restart = value;
                },
                None => {},
            }
            match auto_start {
                Some(value) => {
                    process.auto_start = value;
                },
                None => {},
            }
            match working_dir {
                Some(dir) => {
                    if dir.as_str().is_empty() {
                        process.working_dir = None;
                    } else {
                        process.working_dir = Some(dir);
                    }
                },
                None => {},
            }
        },
        None => {},
    }
    assert(manager@ =~= after_update(
        old(manager)@,
        process_id@,
        auto_restart,
        auto_start,
        optional_text(working_dir),
    ));
}

/// The reading that stands for "nothing to report".
pub open spec fn no_metrics() -> ProcessMetrics {
    ProcessMetrics { memory_mb: 0, memory_bytes: 0, total_memory: 0 }
}

/// What is reported of a process on a snapshot: its metrics where the
/// registry has a pid for it and the snapshot lists that pid, and zeroes in
/// every other case.
pub open spec fn metrics_report(
    m: Registry,
    id: Seq<char>,
    memory: Map<u32, u64>,
    total: u64,
) -> ProcessMetrics {
    if m.dom().contains(id) && m[id].pid is Some {
        match sample_result(memory, total, m[id].pid->0) {
            Ok(metrics) => metrics,
            Err(_) => no_metrics(),
        }
    } else {
        no_metrics()
    }
}

/// The pid that the registry has for a process, if it has one.
pub open spec fn recorded_pid(m: Registry, id: Seq<char>) -> Option<u32> {
    if m.dom().contains(id) {
        m[id].pid
    } else {
        None
    }
}

/// Samples the metrics of a managed process. A process without a pid is
/// reported as zeroes and the snapshot is left alone; a process that the
/// refreshed snapshot does not list is reported as zeroes too.
pub fn get_metrics(manager: &ProcessManager, process_id: &str, system: &mut sysinfo::System) -> (r:
    ProcessMetrics)
    requires
        manager.wf(),
    ensures
        r == metrics_report(
            manager@,
            process_id@,
            snapshot_memory(*final(system)),
            snapshot_total_memory(*final(system)),
        ),
        recorded_pid(manager@, process_id@) is None ==> *final(system) == *old(system),
{
    let pid = match manager.get_process(process_id) {
        Some(process) => process.pid,
        None => None,
    };
    match pid {
        Some(pid) => match Monitoring::get_process_metrics(pid, system) {
            Ok(metrics) => metrics,
            Err(_) => ProcessMetrics { memory_mb: 0, memory_bytes: 0, total_memory: 0 },
        },
        None => ProcessMetrics { memory_mb: 0, memory_bytes: 0, total_memory: 0 },
    }
}

/// The entries of a log to show: the last `LOG_LIMIT` of them.
pub fn get_logs(log_handler: &LogHandler, content: Option<&str>) -> (entries: Vec<LogEntry>)
    ensures
        entry_views(entries@) == read_result(
            match content {
                Some(text) => Some(text@),
                None => None,
            },
            Some(LOG_LIMIT),
        ),
{
    log_handler.read_logs(content, Some(LOG_LIMIT))
}

/// The views of a list of configurations.
pub open spec fn config_views(configs: Seq<ProcessConfig>) -> Seq<ConfigView> {
    configs.map_values(|c: ProcessConfig| c@)
}

/// The registry after stored configurations were read into it, first one
/// first: each is filed as a stopped process under its id, in place of a
/// process that was filed there.
pub open spec fn loaded(m: Registry, configs: Seq<ConfigView>) -> Registry
    decreases configs.len(),
{
    if configs.len() == 0 {
        m
    } else {
        loaded(m, configs.drop_last()).insert(
            configs.last().id,
            InstanceView::from_config(configs.last()),
        )
    }
}

/// Reads stored configurations into the registry and lists all processes.
pub fn load_config(manager: &mut ProcessManager, configs: &Vec<ProcessConfig>, now_ms: u64) -> (r:
    Vec<ProcessState>)
    requires
        old(manager).wf(),
    ensures
        final(manager).wf(),
        final(manager)@ == loaded(old(manager)@, config_views(configs@)),
        r@.len() == final(manager).ids().len(),
        forall|i: int|
            0 <= i < r@.len() ==> (#[trigger] r@[i])@ == final(manager)@[final(manager).ids()[i]].state(now_ms),
{
    let mut i: usize = 0;
    while i < configs.len()
        invariant
            manager.wf(),
            i <= configs.len(),
            manager@ == loaded(old(manager)@, config_views(configs@).take(i as int)),
        decreases configs.len() - i,
    {
        let ghost views = config_views(configs@);
        manager.register(ProcessInstance::from_config(&configs[i]));
        proof {
            assert(views.take(i + 1).drop_last() == views.take(i as int));
            assert(views.take(i + 1).last() == configs@[i as int]@);
        }
        i += 1;
    }
    assert(config_views(configs@).take(configs.len() as int) == config_views(configs@));
    manager.get_all_processes(now_ms)
}

/// The ids among `ids` whose process may be started now, in their order.
pub open spec fn startable(m: Registry, ids: Seq<Seq<char>>) -> Seq<Seq<char>>
    decreases ids.len(),
{
    if ids.len() == 0 {
        Seq::empty()
    } else if launch_decision(m, ids.last()) is Ok {
        startable(m, ids.drop_last()).push(ids.last())
    } else {
        startable(m, ids.drop_last())
    }
}

/// The ids of a list of requests.
pub open spec fn request_ids(requests: Seq<StartRequest>) -> Seq<Seq<char>> {
    requests.map_values(|r: StartRequest| r.id@)
}

/// Says what the host has to start to bring every process up: one request
/// for each process that does not run, in the order of the registry. The
/// host reports each outcome with `start_process`.
pub fn start_all(manager: &ProcessManager) -> (requests: Vec<StartRequest>)
    requires
        manager.wf(),
    ensures
        request_ids(requests@) == startable(manager@, manager.ids()),
        forall|i: int|
            0 <= i < requests@.len() ==> launch_decision(manager@, (#[trigger] requests@[i]).id@)
                == Ok::<LaunchRequestView, ErrorView>(requests@[i].request@),
{
    let ids = manager.process_ids();
    let mut requests: Vec<StartRequest> = Vec::new();
    let mut i: usize = 0;
    while i < ids.len()
        invariant
            manager.wf(),
            texts(ids@) == manager.ids(),
            i <= ids.len(),
            request_ids(requests@) == startable(manager@, manager.ids().take(i as int)),
            forall|j: int|
                0 <= j < requests@.len() ==> launch_decision(
                    manager@,
                    (#[trigger] requests@[j]).id@,
                ) == Ok::<LaunchRequestView, ErrorView>(requests@[j].request@),
        decreases ids.len() - i,
    {
        let ghost before = request_ids(requests@);
        proof {
            assert(manager.ids().take(i + 1).drop_last() == manager.ids().take(i as int));
            assert(manager.ids().take(i + 1).last() == ids@[i as int]@);
        }
        match manager.launch_request(ids[i].as_str()) {
            Ok(request) => {
                requests.push(StartRequest { id: ids[i].clone(), request });
                assert(request_ids(requests@) == before.push(ids@[i as int]@));
            },
            Err(_) => {},
        }
        i += 1;
    }
    assert(manager.ids().take(ids.len() as int) == manager.ids());
    requests
}

/// Stops every process, and says for each whom to end and what to send, in
/// the order of the registry.
pub fn stop_all(manager: &mut ProcessManager) -> (stopped: Vec<StoppedProcess>)
    requires
        old(manager).wf(),
    ensures
        final(manager).wf(),
        final(manager).ids() == old(manager).ids(),
        final(manager)@.dom() == old(manager)@.dom(),
        forall|id: Seq<char>|
            old(manager)@.dom().contains(id) ==> #[trigger] final(manager)@[id] == old(manager)@[id].stopped(),
        stopped@.len() == old(manager).ids().len(),
        forall|i: int|
            0 <= i < stopped@.len() ==> {
                &&& (#[trigger] stopped@[i]).id@ == old(manager).ids()[i]
                &&& stopped@[i].terminate == old(manager)@[old(manager).ids()[i]].child
                &&& stopped@[i].event@ == (StatusChangedView {
                    id: old(manager).ids()[i],
                    status: ProcessStatus::Stopped.text(),
                    pid: None,
                })
            },
{
    let ghost before = manager@;
    let ghost order = manager.ids();
    proof {
        manager.lemma_wf();
    }
    let ids = manager.process_ids();
    let mut stopped: Vec<StoppedProcess> = Vec::new();
    let mut i: usize = 0;
    while i < ids.len()
        invariant
            manager.wf(),
            manager.ids() == order,
            texts(ids@) == order,
            order.no_duplicates(),
            order.to_set() == before.dom(),
            manager@.dom() == before.dom(),
            i <= ids.len(),
            forall|j: int| 0 <= j < i ==> manager@[#[trigger] order[j]] == before[order[j]].stopped(),
            forall|j: int| i <= j < order.len() ==> manager@[#[trigger] order[j]] == before[order[j]],
            stopped@.len() == i,
            forall|j: int|
                0 <= j < i ==> {
                    &&& (#[trigger] stopped@[j]).id@ == order[j]
                    &&& stopped@[j].terminate == before[order[j]].child
                    &&& stopped@[j].event@ == (StatusChangedView {
                        id: order[j],
                        status: ProcessStatus::Stopped.text(),
                        pid: None,
                    })
                },
        decreases ids.len() - i,
    {
        let ghost id = order[i as int];
        assert(ids@[i as int]@ == id);
        assert(order.to_set().contains(id));
        let ghost current = manager@;
        match stop_process(manager, ids[i].as_str()) {
            Ok(one) => {
                stopped.push(one);
            },
            Err(_) => {
                assert(false);
            },
        }
        proof {
            assert(manager@ == current.insert(id, current[id].stopped()));
            assert(manager@.dom() =~= before.dom());
            assert forall|j: int| 0 <= j < i + 1 implies manager@[#[trigger] order[j]]
                == before[order[j]].stopped() by {
                if j < i {
                    assert(order[j] != id);
                }
            }
            assert forall|j: int| i + 1 <= j < order.len() implies manager@[#[trigger] order[j]]
                == before[order[j]] by {
                assert(order[j] != id);
            }
        }
        i += 1;
    }
    proof {
        assert forall|id: Seq<char>| before.dom().contains(id) implies #[trigger] manager@[id]
            == before[id].stopped() by {
            assert(order.to_set().contains(id));
            let j = choose|j: int| 0 <= j < order.len() && order[j] == id;
            assert(manager@[order[j]] == before[order[j]].stopped());
        }
    }
    stopped
}

/// What the host has to start to run a command in a shell.
pub open spec fn shell_request(command: Seq<char>, cwd: Seq<char>) -> LaunchRequestView {
    LaunchRequestView {
        program: "powershell"@,
        args: seq!["-NoProfile"@, "-NonInteractive"@, "-Command"@, command],
        working_dir: Some(cwd),
    }
}

/// Says how to run a command in a session: by the shell, in the working
/// directory of the session, with both output streams piped. A session not
/// seen before starts in `process_cwd`.
pub fn terminal_run(
    terminal: &mut TerminalManager,
    session_id: &str,
    command: &str,
    process_cwd: &str,
) -> (request: LaunchRequest)
    requires
        old(terminal).wf(),
    ensures
        final(terminal).wf(),
        final(terminal).sessions() == after_get_cwd(
            old(terminal).sessions(),
            session_id@,
            process_cwd@,
        ),
        final(terminal).jobs() == old(terminal).jobs(),
        request@ == shell_request(
            command@,
            cwd_of(old(terminal).sessions(), session_id@, process_cwd@),
        ),
{
    let cwd = terminal.get_cwd(session_id, process_cwd);
    let mut args: Vec<String> = Vec::new();
    args.push(String::from_str("-NoProfile"));
    args.push(String::from_str("-NonInteractive"));
    args.push(String::from_str("-Command"));
    args.push(String::from_str(command));
    assert(texts(args@) == seq!["-NoProfile"@, "-NonInteractive"@, "-Command"@, command@]);
    LaunchRequest { program: String::from_str("powershell"), args, working_dir: Some(cwd) }
}

/// The jobs after the start of a job ended: a started job is registered
/// with its child, a refused one is not.
pub open spec fn after_job_start(
    jobs: Map<Seq<char>, TerminalJob>,
    job_id: Seq<char>,
    outcome: LaunchOutcomeView,
) -> Map<Seq<char>, TerminalJob> {
    match outcome {
        LaunchOutcomeView::Started { pid } => jobs.insert(
            job_id,
            TerminalJob { child: Some(ChildHandle { pid }) },
        ),
        LaunchOutcomeView::Failed { message } => jobs,
    }
}

/// Records how the start of a job's command ended. A started job is
/// registered, so that it can be killed from then on; the host registers it
/// before it reads any of its output.
pub fn terminal_job_started(terminal: &mut TerminalManager, job_id: String, outcome: LaunchOutcome) -> (r:
    Result<(), SupervisorError>)
    requires
        old(terminal).wf(),
    ensures
        final(terminal).wf(),
        final(terminal).sessions() == old(terminal).sessions(),
        final(terminal).jobs() == after_job_start(old(terminal).jobs(), job_id@, outcome@),
        match outcome {
            LaunchOutcome::Started { pid } => r is Ok,
            LaunchOutcome::Failed { message } => r is Err && r->Err_0@ == ErrorView::SpawnFailure(
                "Failed to spawn command: "@ + message@,
            ),
        },
{
    match outcome {
        LaunchOutcome::Started { pid } => {
            terminal.add_job(job_id, TerminalJob { child: Some(ChildHandle { pid }) });
            Ok(())
        },
        LaunchOutcome::Failed { message } => {
            let mut text = String::from_str("Failed to spawn command: ");
            text.append(message.as_str());
            Err(SupervisorError::SpawnFailure(text))
        },
    }
}

/// The exit code to report for a job: the code that its process gave, and
/// -1 where there is none to be had.
pub open spec fn reported_exit_code(exit_code: Option<i32>) -> i32 {
    match exit_code {
        Some(code) => code,
        None => -1i32,
    }
}

/// Takes a job whose process has ended out of the registry, and says what
/// to send of its end.
pub fn terminal_job_exited(terminal: &mut TerminalManager, job_id: &str, exit_code: Option<i32>) -> (done:
    JobDone)
    requires
        old(terminal).wf(),
    ensures
        final(terminal).wf(),
        final(terminal).sessions() == old(terminal).sessions(),
        final(terminal).jobs() == old(terminal).jobs().remove(job_id@),
        !final(terminal).jobs().dom().contains(job_id@),
        done.job_id@ == job_id@,
        done.exit_code == reported_exit_code(exit_code),
{
    terminal.remove_job(job_id);
    JobDone {
        job_id: String::from_str(job_id),
        exit_code: match exit_code {
            Some(code) => code,
            None => -1,
        },
    }
}

/// The program of a command line: its first word, or nothing where it has
/// no word.
pub open spec fn program_of(command: Seq<char>) -> Seq<char> {
    if tokens(command).len() > 0 {
        tokens(command)[0]
    } else {
        Seq::empty()
    }
}

/// The arguments of a command line: its words after the first.
pub open spec fn arguments_of(command: Seq<char>) -> Seq<Seq<char>> {
    if tokens(command).len() > 0 {
        tokens(command).drop_first()
    } else {
        Seq::empty()
    }
}

/// Registers a command line as a managed process: the line is split at
/// whitespace into the program and its arguments. No running job is
/// touched.
pub fn terminal_add_process(
    manager: &mut ProcessManager,
    name: String,
    command: &str,
    working_dir: Option<String>,
) -> (id: String)
    requires
        old(manager).wf(),
    ensures
        final(manager).wf(),
        final(manager)@ == old(manager)@.insert(
            id@,
            InstanceView::fresh(
                id@,
                name@,
                program_of(command@),
                arguments_of(command@),
                optional_text(working_dir),
                false,
                false,
            ),
        ),
{
    let mut words = split_whitespace(command);
    let program = if words.len() > 0 {
        let ghost all = texts(words@);
        let first = words.remove(0);
        assert(texts(words@) == all.drop_first());
        first
    } else {
        assert(texts(words@) == Seq::<Seq<char>>::empty());
        String::new()
    };
    manager.add_process(name, program, words, working_dir, false)
}

} // verus!
