use process_supervisor::commands::{
    add_process, get_processes, load_config, remove_process, start_all, start_process, stop_all,
    stop_process, terminal_add_process, update_process,
};
use process_supervisor::error::SupervisorError;
use process_supervisor::log_handler::LogHandler;
use process_supervisor::output_capture::{capture_line, OutputStream};
use process_supervisor::process_manager::{
    ChildHandle, LaunchOutcome, ProcessInstance, ProcessManager,
};
use process_supervisor::types::{clone_env, ProcessConfig, ProcessStatus};
use std::collections::HashMap;

fn manager_with_echo() -> (ProcessManager, String) {
    let mut manager = ProcessManager::new();
    let id = manager.add_process(
        "echo".to_string(),
        "echo".to_string(),
        vec!["hello".to_string()],
        None,
        false,
    );
    (manager, id)
}

fn is_hyphenated_uuid(id: &str) -> bool {
    let chars: Vec<char> = id.chars().collect();
    chars.len() == 36
        && chars.iter().enumerate().all(|(i, c)| {
            if i == 8 || i == 13 || i == 18 || i == 23 {
                *c == '-'
            } else {
                c.is_ascii_digit() || ('a'..='f').contains(c)
            }
        })
}

#[test]
fn new_instance_is_stopped_under_a_uuid() {
    let p = ProcessInstance::new(
        "web".to_string(),
        "node".to_string(),
        vec!["server.js".to_string()],
        true,
        false,
    );
    assert!(is_hyphenated_uuid(&p.id), "{}", p.id);
    assert_eq!(p.name, "web");
    assert_eq!(p.command, "node");
    assert_eq!(p.args, vec!["server.js".to_string()]);
    assert_eq!(p.status, ProcessStatus::Stopped);
    assert_eq!(p.child, None);
    assert_eq!(p.pid, None);
    assert!(p.auto_restart);
    assert!(!p.auto_start);
    assert_eq!(p.working_dir, None);
    assert_eq!(p.start_time, None);
    assert_eq!(p.crash_count, 0);
    assert!(!p.should_restart);
}

#[test]
fn new_instances_get_different_ids() {
    let a = ProcessInstance::new("a".to_string(), "a".to_string(), vec![], false, false);
    let b = ProcessInstance::new("a".to_string(), "a".to_string(), vec![], false, false);
    assert_ne!(a.id, b.id);
}

#[test]
fn config_round_trip() {
    let config = ProcessConfig {
        id: "p1".to_string(),
        name: "api".to_string(),
        command: "cargo".to_string(),
        args: vec!["run".to_string(), "--release".to_string()],
        auto_restart: true,
        auto_start: true,
        working_dir: Some("/srv/api".to_string()),
        env: None,
    };
    let p = ProcessInstance::from_config(&config);
    assert_eq!(p.status, ProcessStatus::Stopped);
    assert_eq!(p.pid, None);
    assert_eq!(p.crash_count, 0);
    let back = p.to_config();
    assert_eq!(back.id, config.id);
    assert_eq!(back.name, config.name);
    assert_eq!(back.command, config.command);
    assert_eq!(back.args, config.args);
    assert_eq!(back.auto_restart, config.auto_restart);
    assert_eq!(back.auto_start, config.auto_start);
    assert_eq!(back.working_dir, config.working_dir);
    assert!(back.env.is_none());
}

fn overrides() -> HashMap<String, String> {
    let mut env = HashMap::new();
    env.insert("RUST_LOG".to_string(), "debug".to_string());
    env.insert("PORT".to_string(), "8080".to_string());
    env.insert("EMPTY".to_string(), String::new());
    env
}

#[test]
fn config_round_trip_keeps_the_environment() {
    let config = ProcessConfig {
        id: "p2".to_string(),
        name: "api".to_string(),
        command: "cargo".to_string(),
        args: vec!["run".to_string()],
        auto_restart: false,
        auto_start: true,
        working_dir: None,
        env: Some(overrides()),
    };
    let p = ProcessInstance::from_config(&config);
    assert_eq!(p.env, Some(overrides()));
    let back = p.to_config();
    assert_eq!(back.env, Some(overrides()));
    assert_eq!(back.id, "p2");
    assert_eq!(back.args, vec!["run".to_string()]);

    let empty = ProcessConfig { env: Some(HashMap::new()), ..config.clone() };
    assert_eq!(ProcessInstance::from_config(&empty).to_config().env, Some(HashMap::new()));
    let none = ProcessConfig { env: None, ..config };
    assert_eq!(ProcessInstance::from_config(&none).to_config().env, None);
}

#[test]
fn environment_survives_the_registry() {
    let mut manager = ProcessManager::new();
    let config = |id: &str, env: Option<HashMap<String, String>>| ProcessConfig {
        id: id.to_string(),
        name: id.to_string(),
        command: "run".to_string(),
        args: vec![],
        auto_restart: false,
        auto_start: false,
        working_dir: None,
        env,
    };
    let configs = vec![config("with", Some(overrides())), config("without", None)];
    load_config(&mut manager, &configs, 0);
    assert_eq!(manager.get_process("with").unwrap().env, Some(overrides()));
    assert_eq!(manager.get_process("without").unwrap().env, None);
    manager.spawn_process("with", LaunchOutcome::Started { pid: 5 }, 1).unwrap();
    manager.stop_process("with").unwrap();
    update_process(&mut manager, "with", Some(true), None, Some("/w".to_string()));
    let stored = manager.get_all_configs();
    assert_eq!(stored.len(), 2);
    assert_eq!(stored[0].id, "with");
    assert_eq!(stored[0].env, Some(overrides()));
    assert_eq!(stored[0].working_dir, Some("/w".to_string()));
    assert_eq!(stored[1].id, "without");
    assert_eq!(stored[1].env, None);
}

#[test]
fn new_processes_have_no_environment() {
    let p = ProcessInstance::new("a".to_string(), "a".to_string(), vec![], false, false);
    assert_eq!(p.env, None);
    let q = ProcessInstance::with_id(
        "id".to_string(),
        "a".to_string(),
        "a".to_string(),
        vec![],
        None,
        false,
        false,
    );
    assert_eq!(q.env, None);
    assert_eq!(q.to_config().env, None);
    assert_eq!(clone_env(&Some(overrides())), Some(overrides()));
    assert_eq!(clone_env(&None), None);
}

#[test]
fn uptime_counts_from_the_start() {
    let (mut manager, id) = manager_with_echo();
    assert_eq!(manager.get_process(&id).unwrap().get_uptime_ms(5_000), 0);
    manager.spawn_process(&id, LaunchOutcome::Started { pid: 7 }, 1_000).unwrap();
    let p = manager.get_process(&id).unwrap();
    assert_eq!(p.start_time, Some(1_000));
    assert_eq!(p.get_uptime_ms(1_000), 0);
    assert_eq!(p.get_uptime_ms(4_500), 3_500);
    assert_eq!(p.get_uptime_ms(999), 0);
    assert_eq!(p.get_uptime_ms(u64::MAX), u64::MAX - 1_000);
}

#[test]
fn state_is_a_snapshot_of_the_instance() {
    let (mut manager, id) = manager_with_echo();
    manager.spawn_process(&id, LaunchOutcome::Started { pid: 42 }, 100).unwrap();
    let s = manager.get_process(&id).unwrap().to_state(350);
    assert_eq!(s.id, id);
    assert_eq!(s.name, "echo");
    assert_eq!(s.command, "echo");
    assert_eq!(s.args, vec!["hello".to_string()]);
    assert_eq!(s.status, "Running");
    assert_eq!(s.pid, Some(42));
    assert!(!s.auto_restart);
    assert!(!s.auto_start);
    assert_eq!(s.working_dir, None);
    assert_eq!(s.uptime_ms, 250);
    assert_eq!(s.crash_count, 0);
}

#[test]
fn status_texts() {
    assert_eq!(ProcessStatus::Running.to_string(), "Running");
    assert_eq!(ProcessStatus::Stopped.to_string(), "Stopped");
    assert_eq!(ProcessStatus::Crashed.to_string(), "Crashed");
}

#[test]
fn spawn_of_unknown_id_fails_and_changes_nothing() {
    let (mut manager, id) = manager_with_echo();
    let before = manager.get_all_processes(0).len();
    let r = manager.spawn_process("no-such-id", LaunchOutcome::Started { pid: 9 }, 10);
    assert!(matches!(r, Err(SupervisorError::NotFound)));
    assert!(matches!(manager.launch_request("no-such-id"), Err(SupervisorError::NotFound)));
    assert_eq!(manager.get_all_processes(0).len(), before);
    assert!(manager.get_process("no-such-id").is_none());
    let p = manager.get_process(&id).unwrap();
    assert_eq!(p.status, ProcessStatus::Stopped);
    assert_eq!(p.pid, None);
}

#[test]
fn spawn_of_running_process_fails_and_keeps_the_child() {
    let (mut manager, id) = manager_with_echo();
    assert_eq!(manager.spawn_process(&id, LaunchOutcome::Started { pid: 11 }, 10).unwrap(), 11);
    assert!(matches!(manager.launch_request(&id), Err(SupervisorError::AlreadyRunning)));
    let r = manager.spawn_process(&id, LaunchOutcome::Started { pid: 12 }, 20);
    assert!(matches!(r, Err(SupervisorError::AlreadyRunning)));
    let r = manager.spawn_process(&id, LaunchOutcome::Failed { message: "x".to_string() }, 20);
    assert!(matches!(r, Err(SupervisorError::AlreadyRunning)));
    let p = manager.get_process(&id).unwrap();
    assert_eq!(p.status, ProcessStatus::Running);
    assert_eq!(p.child, Some(ChildHandle { pid: 11 }));
    assert_eq!(p.pid, Some(11));
    assert_eq!(p.start_time, Some(10));
    assert_eq!(p.crash_count, 0);
}

#[test]
fn stop_then_spawn_runs_again() {
    let (mut manager, id) = manager_with_echo();
    manager.spawn_process(&id, LaunchOutcome::Started { pid: 21 }, 10).unwrap();
    assert_eq!(manager.get_process(&id).unwrap().status, ProcessStatus::Running);
    assert_eq!(manager.stop_process(&id).unwrap(), Some(ChildHandle { pid: 21 }));
    let p = manager.get_process(&id).unwrap();
    assert_eq!(p.status, ProcessStatus::Stopped);
    assert_eq!(p.pid, None);
    assert_eq!(p.child, None);
    assert!(!p.should_restart);
    let request = manager.launch_request(&id).unwrap();
    assert_eq!(request.program, "echo");
    assert_eq!(request.args, vec!["hello".to_string()]);
    assert_eq!(request.working_dir, None);
    assert_eq!(manager.spawn_process(&id, LaunchOutcome::Started { pid: 22 }, 30).unwrap(), 22);
    let p = manager.get_process(&id).unwrap();
    assert_eq!(p.status, ProcessStatus::Running);
    assert_eq!(p.pid, Some(22));
    assert_eq!(p.child, Some(ChildHandle { pid: 22 }));
    assert_eq!(p.start_time, Some(30));
    assert!(p.should_restart);
}

#[test]
fn failed_launch_counts_and_success_resets() {
    let (mut manager, id) = manager_with_echo();
    for expected in 1..=3u32 {
        let r = manager.spawn_process(
            &id,
            LaunchOutcome::Failed { message: "No such file or directory (os error 2)".to_string() },
            5,
        );
        match r {
            Err(SupervisorError::SpawnFailure(text)) => {
                assert_eq!(text, "Failed to spawn process: No such file or directory (os error 2)")
            }
            other => panic!("{:?}", other),
        }
        let p = manager.get_process(&id).unwrap();
        assert_eq!(p.status, ProcessStatus::Crashed);
        assert_eq!(p.crash_count, expected);
        assert_eq!(p.pid, None);
        assert_eq!(p.child, None);
        assert_eq!(p.start_time, None);
    }
    assert!(manager.launch_request(&id).is_ok());
    assert_eq!(manager.spawn_process(&id, LaunchOutcome::Started { pid: 5 }, 6).unwrap(), 5);
    let p = manager.get_process(&id).unwrap();
    assert_eq!(p.status, ProcessStatus::Running);
    assert_eq!(p.crash_count, 0);
}

#[test]
fn stop_of_unknown_id_is_not_found() {
    let mut manager = ProcessManager::new();
    assert!(matches!(manager.stop_process("x"), Err(SupervisorError::NotFound)));
    assert!(matches!(manager.restart_process("x"), Err(SupervisorError::NotFound)));
}

#[test]
fn stop_of_stopped_process_is_no_error() {
    let (mut manager, id) = manager_with_echo();
    assert_eq!(manager.stop_process(&id).unwrap(), None);
    assert_eq!(manager.get_process(&id).unwrap().status, ProcessStatus::Stopped);
}

#[test]
fn restart_stops_and_asks_for_a_launch() {
    let mut manager = ProcessManager::new();
    let id = manager.add_process(
        "srv".to_string(),
        "python".to_string(),
        vec!["-m".to_string(), "http.server".to_string()],
        Some("/srv".to_string()),
        true,
    );
    manager.spawn_process(&id, LaunchOutcome::Started { pid: 31 }, 1).unwrap();
    let plan = manager.restart_process(&id).unwrap();
    assert_eq!(plan.terminate, Some(ChildHandle { pid: 31 }));
    assert_eq!(plan.launch.program, "python");
    assert_eq!(plan.launch.args, vec!["-m".to_string(), "http.server".to_string()]);
    assert_eq!(plan.launch.working_dir, Some("/srv".to_string()));
    assert_eq!(manager.get_process(&id).unwrap().status, ProcessStatus::Stopped);
    assert_eq!(manager.spawn_process(&id, LaunchOutcome::Started { pid: 32 }, 2).unwrap(), 32);
    assert_eq!(manager.get_process(&id).unwrap().pid, Some(32));
}

#[test]
fn echo_scenario() {
    let mut manager = ProcessManager::new();
    let id = add_process(
        &mut manager,
        "echo".to_string(),
        "echo".to_string(),
        vec!["hello".to_string()],
        None,
    );
    let request = manager.launch_request(&id).unwrap();
    assert_eq!(request.program, "echo");
    assert_eq!(request.args, vec!["hello".to_string()]);
    let started =
        start_process(&mut manager, &id, LaunchOutcome::Started { pid: 4242 }, 1_000).unwrap();
    assert_eq!(started.pid, 4242);
    assert_eq!(started.event.id, id);
    assert_eq!(started.event.status, "Running");
    assert_eq!(started.event.pid, Some(4242));
    assert_eq!(manager.get_process(&id).unwrap().status, ProcessStatus::Running);

    let log_handler = LogHandler::new("/var/log/supervisor".to_string());
    let captured = capture_line(&log_handler, &id, OutputStream::Stdout, "hello");
    assert_eq!(captured.event.level, "stdout");
    assert_eq!(captured.event.message, "hello");
    assert_eq!(captured.event_name, format!("process:log:{}", id));
    let entries = log_handler.read_logs(Some(&captured.append.line), Some(1000));
    assert_eq!(entries.len(), 1);
    assert_eq!(entries[0].level, "stdout");
    assert_eq!(entries[0].message, "hello");
    assert_eq!(entries[0].timestamp, captured.append.timestamp);

    let stopped = stop_process(&mut manager, &id).unwrap();
    assert_eq!(stopped.id, id);
    assert_eq!(stopped.terminate, Some(ChildHandle { pid: 4242 }));
    assert_eq!(stopped.event.status, "Stopped");
    assert_eq!(stopped.event.pid, None);
    let p = manager.get_process(&id).unwrap();
    assert_eq!(p.status, ProcessStatus::Stopped);
    assert_eq!(p.pid, None);
    let again = stop_process(&mut manager, &id).unwrap();
    assert_eq!(again.terminate, None);
    assert_eq!(manager.get_process(&id).unwrap().status, ProcessStatus::Stopped);
}

#[test]
fn register_replaces_a_process_of_the_same_id() {
    let mut manager = ProcessManager::new();
    manager.register(ProcessInstance::with_id(
        "a".to_string(),
        "first".to_string(),
        "x".to_string(),
        vec![],
        None,
        false,
        false,
    ));
    manager.register(ProcessInstance::with_id(
        "b".to_string(),
        "other".to_string(),
        "y".to_string(),
        vec![],
        None,
        false,
        false,
    ));
    manager.register(ProcessInstance::with_id(
        "a".to_string(),
        "second".to_string(),
        "z".to_string(),
        vec![],
        Some("/w".to_string()),
        true,
        true,
    ));
    assert_eq!(manager.process_ids(), vec!["a".to_string(), "b".to_string()]);
    let a = manager.get_process("a").unwrap();
    assert_eq!(a.name, "second");
    assert_eq!(a.working_dir, Some("/w".to_string()));
}

#[test]
fn get_process_mut_changes_in_place() {
    let (mut manager, id) = manager_with_echo();
    if let Some(p) = manager.get_process_mut(&id) {
        p.name = "renamed".to_string();
        p.auto_start = true;
    }
    let p = manager.get_process(&id).unwrap();
    assert_eq!(p.name, "renamed");
    assert!(p.auto_start);
    assert!(manager.get_process_mut("nope").is_none());
}

#[test]
fn remove_takes_the_process_out() {
    let (mut manager, id) = manager_with_echo();
    manager.spawn_process(&id, LaunchOutcome::Started { pid: 3 }, 0).unwrap();
    let removed = manager.remove_process(&id).unwrap();
    assert_eq!(removed.id, id);
    assert_eq!(removed.pid, Some(3));
    assert!(manager.get_process(&id).is_none());
    assert!(manager.remove_process(&id).is_none());
    assert!(manager.get_all_processes(0).is_empty());
}

#[test]
fn remove_command_stops_first() {
    let (mut manager, id) = manager_with_echo();
    manager.spawn_process(&id, LaunchOutcome::Started { pid: 77 }, 0).unwrap();
    assert_eq!(remove_process(&mut manager, &id), Some(ChildHandle { pid: 77 }));
    assert!(manager.get_process(&id).is_none());
    assert_eq!(remove_process(&mut manager, &id), None);
    assert_eq!(remove_process(&mut manager, "never-there"), None);
}

#[test]
fn update_patches_only_what_is_given() {
    let mut manager = ProcessManager::new();
    let id = manager.add_process(
        "n".to_string(),
        "c".to_string(),
        vec![],
        Some("/old".to_string()),
        false,
    );
    update_process(&mut manager, &id, None, None, None);
    let p = manager.get_process(&id).unwrap();
    assert!(!p.auto_restart && !p.auto_start);
    assert_eq!(p.working_dir, Some("/old".to_string()));

    update_process(&mut manager, &id, Some(true), None, None);
    let p = manager.get_process(&id).unwrap();
    assert!(p.auto_restart && !p.auto_start);
    assert_eq!(p.working_dir, Some("/old".to_string()));

    update_process(&mut manager, &id, None, Some(true), Some("/new".to_string()));
    let p = manager.get_process(&id).unwrap();
    assert!(p.auto_restart && p.auto_start);
    assert_eq!(p.working_dir, Some("/new".to_string()));

    update_process(&mut manager, &id, Some(false), None, Some(String::new()));
    let p = manager.get_process(&id).unwrap();
    assert!(!p.auto_restart && p.auto_start);
    assert_eq!(p.working_dir, None);
    assert_eq!(p.name, "n");
    assert_eq!(p.status, ProcessStatus::Stopped);
}

#[test]
fn update_of_unknown_id_does_nothing() {
    let (mut manager, id) = manager_with_echo();
    update_process(&mut manager, "unknown", Some(true), Some(true), Some("/x".to_string()));
    assert_eq!(manager.process_ids(), vec![id.clone()]);
    let p = manager.get_process(&id).unwrap();
    assert!(!p.auto_restart && !p.auto_start);
    assert_eq!(p.working_dir, None);
}

#[test]
fn listing_follows_the_order_of_registration() {
    let mut manager = ProcessManager::new();
    let a = manager.add_process("a".to_string(), "ca".to_string(), vec![], None, false);
    let b = manager.add_process("b".to_string(), "cb".to_string(), vec![], None, true);
    manager.spawn_process(&b, LaunchOutcome::Started { pid: 8 }, 100).unwrap();
    let states = get_processes(&manager, 160);
    assert_eq!(states.len(), 2);
    assert_eq!(states[0].id, a);
    assert_eq!(states[0].status, "Stopped");
    assert_eq!(states[0].uptime_ms, 0);
    assert_eq!(states[1].id, b);
    assert_eq!(states[1].status, "Running");
    assert_eq!(states[1].pid, Some(8));
    assert_eq!(states[1].uptime_ms, 60);
    assert!(states[1].auto_restart);
    let configs = manager.get_all_configs();
    assert_eq!(configs.len(), 2);
    assert_eq!(configs[0].id, a);
    assert_eq!(configs[1].command, "cb");
    assert!(configs[1].env.is_none());
}

#[test]
fn load_config_files_each_config() {
    let mut manager = ProcessManager::new();
    let config = |id: &str, name: &str| ProcessConfig {
        id: id.to_string(),
        name: name.to_string(),
        command: "run".to_string(),
        args: vec![],
        auto_restart: false,
        auto_start: true,
        working_dir: None,
        env: None,
    };
    let configs = vec![config("1", "one"), config("2", "two"), config("1", "uno")];
    let states = load_config(&mut manager, &configs, 0);
    assert_eq!(states.len(), 2);
    assert_eq!(states[0].id, "1");
    assert_eq!(states[0].name, "uno");
    assert_eq!(states[0].status, "Stopped");
    assert!(states[0].auto_start);
    assert_eq!(states[1].id, "2");
    assert_eq!(states[1].name, "two");
}

#[test]
fn start_all_asks_for_what_does_not_run() {
    let mut manager = ProcessManager::new();
    let a = manager.add_process("a".to_string(), "ca".to_string(), vec![], None, false);
    let b = manager.add_process("b".to_string(), "cb".to_string(), vec![], None, false);
    let c = manager.add_process("c".to_string(), "cc".to_string(), vec!["x".to_string()], None, false);
    manager.spawn_process(&b, LaunchOutcome::Started { pid: 8 }, 0).unwrap();
    let _ = manager.spawn_process(&c, LaunchOutcome::Failed { message: "no".to_string() }, 0);
    let requests = start_all(&manager);
    assert_eq!(requests.len(), 2);
    assert_eq!(requests[0].id, a);
    assert_eq!(requests[0].request.program, "ca");
    assert_eq!(requests[1].id, c);
    assert_eq!(requests[1].request.program, "cc");
    assert_eq!(requests[1].request.args, vec!["x".to_string()]);
}

#[test]
fn stop_all_stops_every_process() {
    let mut manager = ProcessManager::new();
    let a = manager.add_process("a".to_string(), "ca".to_string(), vec![], None, false);
    let b = manager.add_process("b".to_string(), "cb".to_string(), vec![], None, false);
    manager.spawn_process(&b, LaunchOutcome::Started { pid: 8 }, 0).unwrap();
    let stopped = stop_all(&mut manager);
    assert_eq!(stopped.len(), 2);
    assert_eq!(stopped[0].id, a);
    assert_eq!(stopped[0].terminate, None);
    assert_eq!(stopped[1].id, b);
    assert_eq!(stopped[1].terminate, Some(ChildHandle { pid: 8 }));
    assert_eq!(stopped[1].event.id, b);
    assert_eq!(stopped[1].event.status, "Stopped");
    for id in [&a, &b] {
        let p = manager.get_process(id).unwrap();
        assert_eq!(p.status, ProcessStatus::Stopped);
        assert_eq!(p.pid, None);
    }
    assert!(stop_all(&mut ProcessManager::new()).is_empty());
}

#[test]
fn command_line_becomes_program_and_arguments() {
    let mut manager = ProcessManager::new();
    let id = terminal_add_process(
        &mut manager,
        "dev".to_string(),
        "  npm   run dev\t--host ",
        Some("/app".to_string()),
    );
    let p = manager.get_process(&id).unwrap();
    assert_eq!(p.name, "dev");
    assert_eq!(p.command, "npm");
    assert_eq!(p.args, vec!["run".to_string(), "dev".to_string(), "--host".to_string()]);
    assert_eq!(p.working_dir, Some("/app".to_string()));
    assert_eq!(p.status, ProcessStatus::Stopped);
    assert!(!p.auto_restart);

    let id = terminal_add_process(&mut manager, "one".to_string(), "ls", None);
    let p = manager.get_process(&id).unwrap();
    assert_eq!(p.command, "ls");
    assert!(p.args.is_empty());

    let id = terminal_add_process(&mut manager, "none".to_string(), "   ", None);
    let p = manager.get_process(&id).unwrap();
    assert_eq!(p.command, "");
    assert!(p.args.is_empty());

    let id = terminal_add_process(&mut manager, "tab".to_string(), "a\tb c", None);
    let p = manager.get_process(&id).unwrap();
    assert_eq!(p.command, "a");
    assert_eq!(p.args, vec!["b".to_string(), "c".to_string()]);
}
