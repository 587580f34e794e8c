use process_supervisor::commands::{terminal_job_exited, terminal_job_started, terminal_run};
use process_supervisor::error::SupervisorError;
use process_supervisor::events::{
    process_log_event, running_event, status_changed_event, stopped_event, terminal_done_event,
    terminal_output_event, NO_EXIT_CODE,
};
use process_supervisor::process_manager::{ChildHandle, LaunchOutcome};
use process_supervisor::terminal::{PathResolution, TerminalJob, TerminalManager};

#[test]
fn default_session_starts_in_the_process_directory() {
    let mut t = TerminalManager::new("/home/me".to_string());
    assert_eq!(t.get_cwd("default", "/elsewhere"), "/home/me");
    assert!(!t.has_job("any"));
}

#[test]
fn unseen_session_is_created_lazily() {
    let mut t = TerminalManager::new("/home/me".to_string());
    assert_eq!(t.resolution_base("s1", "/first"), "/first");
    assert_eq!(t.resolution_base("s1", "/second"), "/second");
    assert_eq!(t.get_cwd("s1", "/first"), "/first");
    assert_eq!(t.get_cwd("s1", "/second"), "/first");
    assert_eq!(t.resolution_base("s1", "/second"), "/first");
}

#[test]
fn fallback_directory() {
    assert_eq!(TerminalManager::fallback_cwd(Some("/x".to_string())), "/x");
    assert_eq!(TerminalManager::fallback_cwd(None), "C:\\");
}

#[test]
fn set_cwd_moves_the_session() {
    let mut t = TerminalManager::new("/home/me".to_string());
    let r = t.set_cwd("default", "../you", PathResolution::Directory("/home/you".to_string()));
    assert_eq!(r.unwrap(), "/home/you");
    assert_eq!(t.get_cwd("default", "/p"), "/home/you");
    let r = t.set_cwd("fresh", "/srv", PathResolution::Directory("/srv".to_string()));
    assert_eq!(r.unwrap(), "/srv");
    assert_eq!(t.get_cwd("fresh", "/p"), "/srv");
    assert_eq!(t.get_cwd("default", "/p"), "/home/you");
}

#[test]
fn set_cwd_to_missing_path_fails_and_keeps_the_directory() {
    let mut t = TerminalManager::new("/home/me".to_string());
    let before = t.get_cwd("default", "/p");
    match t.set_cwd("default", "no/such/dir", PathResolution::Missing) {
        Err(SupervisorError::PathResolutionFailure(text)) => {
            assert_eq!(text, "Directory not found: no/such/dir")
        }
        other => panic!("{:?}", other),
    }
    assert_eq!(t.get_cwd("default", "/p"), before);
    match t.set_cwd("unseen", "gone", PathResolution::Missing) {
        Err(SupervisorError::PathResolutionFailure(_)) => {}
        other => panic!("{:?}", other),
    }
    assert_eq!(t.get_cwd("unseen", "/process"), "/process");
}

#[test]
fn set_cwd_to_a_file_fails_and_keeps_the_directory() {
    let mut t = TerminalManager::new("/home/me".to_string());
    let r = t.set_cwd("default", "notes.txt", PathResolution::NotADirectory("/home/me/notes.txt".to_string()));
    match r {
        Err(e) => {
            assert!(matches!(e, SupervisorError::PathResolutionFailure(_)));
            assert_eq!(e.message(), "Not a directory: /home/me/notes.txt");
        }
        Ok(p) => panic!("{}", p),
    }
    assert_eq!(t.get_cwd("default", "/p"), "/home/me");
}

#[test]
fn kill_of_unknown_job_is_a_no_op() {
    let t = TerminalManager::new("/".to_string());
    assert_eq!(t.kill_job("nope"), None);
    assert!(!t.has_job("nope"));
}

#[test]
fn kill_names_the_child_of_a_known_job() {
    let mut t = TerminalManager::new("/".to_string());
    t.add_job("j1".to_string(), TerminalJob { child: Some(ChildHandle { pid: 900 }) });
    t.add_job("j2".to_string(), TerminalJob { child: None });
    assert!(t.has_job("j1"));
    assert_eq!(t.kill_job("j1"), Some(ChildHandle { pid: 900 }));
    assert_eq!(t.kill_job("j1"), Some(ChildHandle { pid: 900 }));
    assert_eq!(t.kill_job("j2"), None);
    assert!(t.has_job("j1"));
    t.remove_job("j1");
    assert!(!t.has_job("j1"));
    assert_eq!(t.kill_job("j1"), None);
    t.remove_job("j1");
    assert!(t.has_job("j2"));
}

#[test]
fn run_job_asks_for_a_shell_in_the_session_directory() {
    let mut t = TerminalManager::new("/home/me".to_string());
    let request = terminal_run(&mut t, "sessionA", "exit 3", "/work");
    assert_eq!(request.program, "powershell");
    assert_eq!(
        request.args,
        vec![
            "-NoProfile".to_string(),
            "-NonInteractive".to_string(),
            "-Command".to_string(),
            "exit 3".to_string()
        ]
    );
    assert_eq!(request.working_dir, Some("/work".to_string()));
    assert_eq!(t.get_cwd("sessionA", "/other"), "/work");
    let request = terminal_run(&mut t, "default", "ls", "/work");
    assert_eq!(request.working_dir, Some("/home/me".to_string()));
}

#[test]
fn exit_three_scenario() {
    let mut t = TerminalManager::new("/home/me".to_string());
    let _request = terminal_run(&mut t, "sessionA", "exit 3", "/work");
    terminal_job_started(&mut t, "J".to_string(), LaunchOutcome::Started { pid: 555 }).unwrap();
    assert!(t.has_job("J"));
    assert_eq!(t.kill_job("J"), Some(ChildHandle { pid: 555 }));
    let done = terminal_job_exited(&mut t, "J", Some(3));
    assert_eq!(done.job_id, "J");
    assert_eq!(done.exit_code, 3);
    assert!(!t.has_job("J"));
    assert_eq!(t.kill_job("J"), None);
    assert_eq!(terminal_done_event("sessionA"), "terminal:done:sessionA");
}

#[test]
fn job_without_exit_code_reports_minus_one() {
    let mut t = TerminalManager::new("/".to_string());
    terminal_job_started(&mut t, "J".to_string(), LaunchOutcome::Started { pid: 1 }).unwrap();
    let done = terminal_job_exited(&mut t, "J", None);
    assert_eq!(done.exit_code, -1);
    assert_eq!(NO_EXIT_CODE, -1);
    let done = terminal_job_exited(&mut t, "never-registered", Some(0));
    assert_eq!(done.exit_code, 0);
    let done = terminal_job_exited(&mut t, "J", Some(-7));
    assert_eq!(done.exit_code, -7);
}

#[test]
fn refused_job_is_not_registered() {
    let mut t = TerminalManager::new("/".to_string());
    let r = terminal_job_started(
        &mut t,
        "J".to_string(),
        LaunchOutcome::Failed { message: "program not found".to_string() },
    );
    match r {
        Err(SupervisorError::SpawnFailure(text)) => {
            assert_eq!(text, "Failed to spawn command: program not found")
        }
        other => panic!("{:?}", other),
    }
    assert!(!t.has_job("J"));
}

#[test]
fn event_names() {
    assert_eq!(status_changed_event(), "process:status_changed");
    assert_eq!(process_log_event("abc"), "process:log:abc");
    assert_eq!(terminal_output_event("s1"), "terminal:output:s1");
    assert_eq!(terminal_done_event("s1"), "terminal:done:s1");
    let e = running_event("p", 12);
    assert_eq!((e.id.as_str(), e.status.as_str(), e.pid), ("p", "Running", Some(12)));
    let e = stopped_event("p");
    assert_eq!((e.id.as_str(), e.status.as_str(), e.pid), ("p", "Stopped", None));
}
