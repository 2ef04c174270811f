use clash_launcher::errors::LauncherError;
use clash_launcher::supervisor::{
    client_executable_path, conclude_spawn, log_event_name, plan_start_client,
    plan_start_server, process_event_name, server_executable_path, stop_command,
    stop_event_name, version_event_name, ProcessKind, SlotState, Supervisor,
};
use clash_launcher::text::LineSplitter;

fn b(s: &str) -> Vec<u8> {
    s.as_bytes().to_vec()
}

#[test]
fn slot_lifecycle_round_trip() {
    let mut sup = Supervisor::new();
    assert_eq!(sup.slot_state(ProcessKind::Server), SlotState::Idle);
    sup.begin_spawn(ProcessKind::Server);
    assert_eq!(sup.slot_state(ProcessKind::Server), SlotState::Spawning);
    assert_eq!(sup.slot_state(ProcessKind::Client), SlotState::Idle);
    sup.spawn_succeeded(ProcessKind::Server, 4242);
    assert_eq!(sup.slot_state(ProcessKind::Server), SlotState::Running { pid: 4242 });
    assert_eq!(sup.tracked_pid(ProcessKind::Server), Some(4242));
    assert_eq!(sup.tracked_pid(ProcessKind::Client), None);
    sup.request_stop(ProcessKind::Server);
    assert_eq!(sup.slot_state(ProcessKind::Server), SlotState::Stopping { pid: 4242 });
    sup.confirm_stopped(ProcessKind::Server);
    assert_eq!(sup.slot_state(ProcessKind::Server), SlotState::Idle);
}

#[test]
fn failed_spawn_frees_the_slot() {
    let mut sup = Supervisor::new();
    sup.begin_spawn(ProcessKind::Client);
    sup.spawn_failed(ProcessKind::Client);
    assert_eq!(sup.slot_state(ProcessKind::Client), SlotState::Idle);
}

#[test]
fn client_plan_carries_name_and_ip() {
    let plan = plan_start_client(true, &b("alice"), &b("10.0.0.7")).expect("present");
    assert_eq!(plan.executable, client_executable_path());
    assert_eq!(
        plan.args,
        vec![b("--name"), b("alice"), b("--ip"), b("10.0.0.7")]
    );
    assert!(!plan.capture_output);
}

#[test]
fn missing_client_executable_is_reported() {
    assert_eq!(
        plan_start_client(false, &b("alice"), &b("10.0.0.7")),
        Err(LauncherError::ExecutableNotFound)
    );
}

#[test]
fn reclaim_failure_is_fatal_to_server_start() {
    assert_eq!(
        plan_start_server(Err(LauncherError::KillFailed), true),
        Err(LauncherError::KillFailed)
    );
}

#[test]
fn missing_server_executable_is_reported() {
    assert_eq!(
        plan_start_server(Ok(None), false),
        Err(LauncherError::ExecutableNotFound)
    );
}

#[test]
fn server_plan_pipes_output() {
    let plan = plan_start_server(Ok(None), true).expect("present");
    assert_eq!(plan.executable, server_executable_path());
    assert!(plan.args.is_empty());
    assert!(plan.capture_output);
}

#[test]
fn spawn_outcomes_are_distinguished() {
    assert_eq!(conclude_spawn(Some(77)), Ok(77));
    assert_eq!(conclude_spawn(None), Err(LauncherError::SpawnFailed));
}

#[test]
fn relay_emits_one_event_per_line_in_order() {
    let mut splitter = LineSplitter::new();
    let mut events: Vec<Vec<u8>> = Vec::new();
    events.extend(splitter.feed(&b("first li")));
    events.extend(splitter.feed(&b("ne\nsecond line\nthi")));
    events.extend(splitter.feed(&b("rd line\n")));
    assert_eq!(
        events,
        vec![b("first line"), b("second line"), b("third line")]
    );
}

#[test]
fn relay_holds_back_incomplete_lines() {
    let mut splitter = LineSplitter::new();
    let lines = splitter.feed(&b("no newline yet"));
    assert!(lines.is_empty());
    let lines = splitter.feed(&b("\n"));
    assert_eq!(lines, vec![b("no newline yet")]);
}

#[test]
fn relay_keeps_empty_lines() {
    let mut splitter = LineSplitter::new();
    let lines = splitter.feed(&b("a\n\nb\n"));
    assert_eq!(lines, vec![b("a"), b(""), b("b")]);
}

#[test]
fn stop_commands_kill_by_executable_name() {
    let unix = stop_command(ProcessKind::Server, false);
    assert_eq!(unix.program, b("pkill"));
    assert_eq!(unix.args, vec![b("-f"), b("server.bin")]);
    let windows = stop_command(ProcessKind::Client, true);
    assert_eq!(windows.program, b("taskkill"));
    assert_eq!(windows.args, vec![b("/F"), b("/IM"), b("client.bin")]);
}

#[test]
fn event_surface_names() {
    assert_eq!(process_event_name(ProcessKind::Client), b("game-process"));
    assert_eq!(process_event_name(ProcessKind::Server), b("server-process"));
    assert_eq!(log_event_name(false), b("server-log"));
    assert_eq!(log_event_name(true), b("server-error"));
    assert_eq!(stop_event_name(ProcessKind::Client), b("stop-game"));
    assert_eq!(stop_event_name(ProcessKind::Server), b("stop-server"));
    assert_eq!(version_event_name(), b("config-current-version"));
}

#[test]
fn executable_paths_are_fixed() {
    assert_eq!(
        client_executable_path(),
        b("./client_update/client.dist/client.bin")
    );
    assert_eq!(server_executable_path(), b("./server_update/server.bin"));
}
