use sidecar_core::pipeline::LogState;
use sidecar_core::registry::PortRegistry;
use sidecar_core::supervisor::{ProcessSupervisor, StepEffects, TermStatus, WorkerEvent};

fn open_logs() -> LogState {
    let mut logs = LogState::init(String::from("logs"));
    logs.app.open(0, true);
    logs.server.open(0, true);
    logs
}

fn stdout_event(text: &str) -> WorkerEvent {
    WorkerEvent::Stdout(text.as_bytes().to_vec())
}

#[test]
fn stdout_line_is_logged_and_scanned_for_port() {
    let logs = open_logs();
    let mut sup = ProcessSupervisor::new();
    let eff: StepEffects = sup.handle_event(&logs, &stdout_event("SERVER_PORT=8080\n"), 7);
    assert_eq!(eff.server_line.unwrap().as_str(), "[7] [STDOUT] SERVER_PORT=8080");
    assert_eq!(eff.port, Some(8080));
    assert_eq!(eff.app_line.unwrap().as_str(), "[7] [INFO] Detected backend port: 8080");
    assert!(!eff.clear_handle);
    assert!(sup.handle_present);
}

#[test]
fn stdout_without_announcement_updates_nothing() {
    let logs = open_logs();
    let mut sup = ProcessSupervisor::new();
    let eff = sup.handle_event(&logs, &stdout_event("ready to serve"), 8);
    assert_eq!(eff.server_line.unwrap().as_str(), "[8] [STDOUT] ready to serve");
    assert_eq!(eff.port, None);
    assert!(eff.app_line.is_none());
}

#[test]
fn invalid_announcement_leaves_port_unset() {
    let logs = open_logs();
    let mut sup = ProcessSupervisor::new();
    let eff = sup.handle_event(&logs, &stdout_event("SERVER_PORT=8080 foo=bar"), 8);
    assert_eq!(eff.port, None);
    assert!(eff.app_line.is_none());
}

#[test]
fn stderr_is_never_scanned_for_the_port() {
    let logs = open_logs();
    let mut sup = ProcessSupervisor::new();
    let eff = sup.handle_event(
        &logs,
        &WorkerEvent::Stderr("SERVER_PORT=9090".as_bytes().to_vec()),
        9,
    );
    assert_eq!(eff.server_line.unwrap().as_str(), "[9] [STDERR] SERVER_PORT=9090");
    assert_eq!(eff.port, None);
    assert!(eff.app_line.is_none());
    assert!(!eff.clear_handle);
}

#[test]
fn spawn_error_is_logged_and_loop_continues() {
    let logs = open_logs();
    let mut sup = ProcessSupervisor::new();
    let eff = sup.handle_event(&logs, &WorkerEvent::SpawnError(String::from("no exec")), 4);
    assert_eq!(eff.app_line.unwrap().as_str(), "[4] [ERROR] Sidecar Error: no exec");
    assert!(eff.server_line.is_none());
    assert!(!eff.clear_handle);
    assert!(sup.handle_present);
}

#[test]
fn termination_clears_the_handle() {
    let logs = open_logs();
    let mut sup = ProcessSupervisor::new();
    let status = TermStatus { code: Some(3), signal: None };
    let eff = sup.handle_event(&logs, &WorkerEvent::Terminated(status), 5);
    assert_eq!(
        eff.app_line.unwrap().as_str(),
        "[5] [WARN] Sidecar Terminated with status: code=3 signal=none"
    );
    assert!(eff.clear_handle);
    assert!(!sup.handle_present);
}

#[test]
fn negative_exit_code_is_rendered_signed() {
    let logs = open_logs();
    let mut sup = ProcessSupervisor::new();
    let status = TermStatus { code: Some(-1), signal: Some(9) };
    let eff = sup.handle_event(&logs, &WorkerEvent::Terminated(status), 6);
    assert_eq!(
        eff.app_line.unwrap().as_str(),
        "[6] [WARN] Sidecar Terminated with status: code=-1 signal=9"
    );
}

#[test]
fn closed_channels_store_nothing() {
    let logs = LogState::init(String::from("logs"));
    let mut sup = ProcessSupervisor::new();
    let eff = sup.handle_event(&logs, &stdout_event("SERVER_PORT=8080"), 7);
    assert!(eff.server_line.is_none());
    assert!(eff.app_line.is_none());
    // the parsed port is reported regardless of logging
    assert_eq!(eff.port, Some(8080));
}

#[test]
fn registry_returns_the_latest_stored_port() {
    let reg = PortRegistry::new();
    assert_eq!(reg.get(), 0);
    reg.set(8080);
    assert_eq!(reg.get(), 8080);
    reg.set(9090);
    assert_eq!(reg.get(), 9090);
}

#[test]
fn registry_is_shared_through_a_cloned_handle() {
    let reg = std::sync::Arc::new(PortRegistry::new());
    let r2 = reg.clone();
    reg.set(4242);
    assert_eq!(r2.get(), 4242);
}
