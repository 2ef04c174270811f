use clash_launcher::errors::LauncherError;
use clash_launcher::ports::{
    identify_owner, identify_owner_in_table, kill_message, port_marker, reclaim_after_bind,
    reclaim_after_kill, ReclaimAction, SERVER_PORT,
};

fn b(s: &str) -> Vec<u8> {
    s.as_bytes().to_vec()
}

#[test]
fn free_port_needs_no_reclaim() {
    assert!(matches!(reclaim_after_bind(true), ReclaimAction::AlreadyFree));
}

#[test]
fn bound_port_triggers_inspection() {
    assert!(matches!(reclaim_after_bind(false), ReclaimAction::Inspect));
}

#[test]
fn owner_read_from_trimmed_output() {
    assert_eq!(identify_owner(&b("  4242\n")), Ok(b("4242")));
    assert_eq!(identify_owner(&b("777")), Ok(b("777")));
}

#[test]
fn blank_output_means_unidentified() {
    assert_eq!(
        identify_owner(&b("  \n\t ")),
        Err(LauncherError::PortInUseUnidentified)
    );
    assert_eq!(
        identify_owner(&Vec::new()),
        Err(LauncherError::PortInUseUnidentified)
    );
}

#[test]
fn table_output_names_fifth_column_of_marked_line() {
    let mut output = b("Active Connections\n");
    output.extend(b("  TCP    0.0.0.0:80       0.0.0.0:0    LISTENING    100\r\n"));
    output.extend(b("  TCP    0.0.0.0:12345    0.0.0.0:0    LISTENING    4242\r\n"));
    output.extend(b("  TCP    0.0.0.0:12345    0.0.0.0:0    LISTENING    9999\r\n"));
    assert_eq!(identify_owner_in_table(&output, 12345), Ok(b("4242")));
}

#[test]
fn table_without_port_line_is_unidentified() {
    let output = b("  TCP    0.0.0.0:80    0.0.0.0:0    LISTENING    100\r\n");
    assert_eq!(
        identify_owner_in_table(&output, 12345),
        Err(LauncherError::PortInUseUnidentified)
    );
}

#[test]
fn table_line_with_too_few_columns_is_unidentified() {
    let output = b("something :12345 here\n");
    assert_eq!(
        identify_owner_in_table(&output, 12345),
        Err(LauncherError::PortInUseUnidentified)
    );
}

#[test]
fn port_marker_shape() {
    assert_eq!(port_marker(12345), b(":12345"));
    assert_eq!(port_marker(80), b(":80"));
}

#[test]
fn reclaim_report_names_pid_and_port() {
    let r = reclaim_after_kill(true, &b("4242"), SERVER_PORT);
    assert_eq!(
        r,
        Ok(Some(b("Killed process with PID 4242 using port 12345")))
    );
}

#[test]
fn failed_kill_is_surfaced() {
    assert_eq!(
        reclaim_after_kill(false, &b("4242"), SERVER_PORT),
        Err(LauncherError::KillFailed)
    );
}

#[test]
fn reclaim_flow_for_bound_port() {
    assert!(matches!(reclaim_after_bind(false), ReclaimAction::Inspect));
    let pid = identify_owner(&b("4242\n")).expect("identified");
    let report = reclaim_after_kill(true, &pid, 12345).expect("killed");
    assert_eq!(
        report,
        Some(b("Killed process with PID 4242 using port 12345"))
    );
}

#[test]
fn kill_message_exact() {
    assert_eq!(
        kill_message(&b("1"), 80),
        b("Killed process with PID 1 using port 80")
    );
}
