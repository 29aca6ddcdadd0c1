use md_workspace::node::RawEntry;
use md_workspace::scan::build_file_tree;
use md_workspace::supervisor::{LogAction, ServerEvent, Supervisor, SupervisorState};

#[test]
fn successful_session_reaches_exited() {
    let mut sup = Supervisor::new();
    assert_eq!(sup.state(), SupervisorState::NotStarted);
    sup.begin_start();
    assert_eq!(sup.state(), SupervisorState::Starting);
    sup.spawn_resolved(true);
    assert_eq!(sup.state(), SupervisorState::Running);
    let act = sup.handle_event(ServerEvent::StreamsClosed { success: true });
    assert!(matches!(act, LogAction::Nothing));
    assert_eq!(sup.state(), SupervisorState::Exited);
}

#[test]
fn failing_exit_status_means_crashed() {
    let mut sup = Supervisor::new();
    sup.begin_start();
    sup.spawn_resolved(true);
    sup.handle_event(ServerEvent::StreamsClosed { success: false });
    assert_eq!(sup.state(), SupervisorState::Crashed);
}

#[test]
fn stdout_lines_are_forwarded_at_info_level_with_tag() {
    let mut sup = Supervisor::new();
    sup.begin_start();
    sup.spawn_resolved(true);
    let act = sup.handle_event(ServerEvent::StdoutLine(b"listening on 4321".to_vec()));
    match act {
        LogAction::Info(m) => assert_eq!(m, "API Server: listening on 4321"),
        _ => panic!("expected an info log action"),
    }
    assert_eq!(sup.state(), SupervisorState::Running);
}

#[test]
fn stderr_lines_are_forwarded_at_error_level_with_tag() {
    let mut sup = Supervisor::new();
    sup.begin_start();
    sup.spawn_resolved(true);
    let act = sup.handle_event(ServerEvent::StderrLine(b"bind failed".to_vec()));
    match act {
        LogAction::Error(m) => assert_eq!(m, "API Server Error: bind failed"),
        _ => panic!("expected an error log action"),
    }
}

#[test]
fn lines_that_are_not_text_are_forwarded_with_replacement() {
    let mut sup = Supervisor::new();
    sup.begin_start();
    sup.spawn_resolved(true);
    let act = sup.handle_event(ServerEvent::StdoutLine(vec![b'o', b'k', 0xff]));
    match act {
        LogAction::Info(m) => assert_eq!(m, "API Server: ok\u{FFFD}"),
        _ => panic!("expected an info log action"),
    }
    assert_eq!(sup.state(), SupervisorState::Running);
}

#[test]
fn stderr_lines_that_are_not_text_are_forwarded_too() {
    let mut sup = Supervisor::new();
    sup.begin_start();
    sup.spawn_resolved(true);
    let act = sup.handle_event(ServerEvent::StderrLine(vec![0xc0, 0xaf]));
    match act {
        LogAction::Error(m) => assert_eq!(m, "API Server Error: \u{FFFD}\u{FFFD}"),
        _ => panic!("expected an error log action"),
    }
}

#[test]
fn lines_outside_running_are_not_forwarded() {
    let mut sup = Supervisor::new();
    let act = sup.handle_event(ServerEvent::StdoutLine(b"early".to_vec()));
    assert!(matches!(act, LogAction::Nothing));
    assert_eq!(sup.state(), SupervisorState::NotStarted);
}

#[test]
fn other_events_are_ignored() {
    let mut sup = Supervisor::new();
    sup.begin_start();
    sup.spawn_resolved(true);
    let act = sup.handle_event(ServerEvent::Other);
    assert!(matches!(act, LogAction::Nothing));
    assert_eq!(sup.state(), SupervisorState::Running);
}

#[test]
fn failed_spawn_leaves_session_usable() {
    let mut sup = Supervisor::new();
    sup.begin_start();
    sup.spawn_resolved(false);
    assert_eq!(sup.state(), SupervisorState::NotStarted);
    // The session keeps working: a workspace load still succeeds.
    let entries = vec![RawEntry::File {
        name: "still.md".to_string(),
        path: "/ws/still.md".to_string(),
    }];
    let tree = build_file_tree(&entries);
    assert_eq!(tree.len(), 1);
}
