use tray_core::command::CommandOutput;
use tray_core::tailscale::Tailscale;
use tray_core::tailscale::TailscaleAction;
use tray_core::tailscale::TailscaleError;

fn query(stdout: &str) -> CommandOutput {
    CommandOutput::new(true, stdout.to_string(), String::new())
}

#[test]
fn two_peer_scenario() {
    let text = "100.1.1.1 host-a alice linux -\n100.1.1.2 host-b alice linux offline\n";
    let machines = Tailscale::status(&query(text)).unwrap();
    assert_eq!(machines.len(), 2);
    assert_eq!(machines[0].hostname, "host-a");
    assert!(machines[0].online);
    assert_eq!(machines[1].hostname, "host-b");
    assert!(!machines[1].online);
    assert_eq!(machines[0].ip, "100.1.1.1");
    assert_eq!(machines[0].user, "alice");
    assert_eq!(machines[0].os, "linux");
    assert_eq!(machines[0].details, "-");
    assert_eq!(machines[1].details, "offline");
}

#[test]
fn online_peers_come_first_in_source_order() {
    let text = "1.1.1.1 on-one u linux -\n1.1.1.2 off-one u linux offline\n1.1.1.3 on-two u linux active\n";
    let machines = Tailscale::status(&query(text)).unwrap();
    let names: Vec<&str> = machines.iter().map(|m| m.hostname.as_str()).collect();
    assert_eq!(names, vec!["on-one", "on-two", "off-one"]);
    assert!(machines[0].online && machines[1].online && !machines[2].online);
}

#[test]
fn short_lines_are_skipped() {
    let text = "# header\n100.1.1.1 host-a alice\n100.1.1.2 host-b alice linux -\n";
    let machines = Tailscale::status(&query(text)).unwrap();
    assert_eq!(machines.len(), 1);
    assert_eq!(machines[0].hostname, "host-b");
}

#[test]
fn details_join_collapses_whitespace() {
    let text = "100.1.1.1 host-a alice linux   idle;   tx 123\n";
    let machines = Tailscale::status(&query(text)).unwrap();
    assert_eq!(machines[0].details, "idle; tx 123");
    assert!(machines[0].online);
}

#[test]
fn offline_token_in_details_marks_offline() {
    let text = "100.1.1.1 host-a alice linux idle, offline since Mon\n";
    let machines = Tailscale::status(&query(text)).unwrap();
    assert!(!machines[0].online);
}

#[test]
fn stopped_text_is_daemon_stopped() {
    let r = Tailscale::status(&query("Tailscale is stopped.\n"));
    assert!(matches!(r, Err(TailscaleError::DaemonStopped)));
}

#[test]
fn failed_status_reports_stderr() {
    let output = CommandOutput::new(false, String::new(), "some failure".to_string());
    match Tailscale::status(&output) {
        Err(TailscaleError::CommandFailed(msg)) => assert_eq!(msg, "some failure"),
        other => panic!("unexpected result: {:?}", other),
    }
}

#[test]
fn online_machines_filters_offline_peers() {
    let text = "1.1.1.1 on-one u linux -\n1.1.1.2 off-one u linux offline\n1.1.1.3 on-two u linux active\n";
    let machines = Tailscale::online_machines(&query(text)).unwrap();
    let names: Vec<&str> = machines.iter().map(|m| m.hostname.as_str()).collect();
    assert_eq!(names, vec!["on-one", "on-two"]);
    assert!(machines.iter().all(|m| m.online));
}

#[test]
fn is_enabled_success_cases() {
    assert_eq!(
        Tailscale::is_enabled(&query("1.1.1.1 host-a alice linux -\n")).unwrap(),
        true
    );
    assert_eq!(
        Tailscale::is_enabled(&query("Tailscale is stopped.\n")).unwrap(),
        false
    );
}

#[test]
fn is_enabled_known_failure_patterns_mean_disabled() {
    let not_running = CommandOutput::new(
        false,
        String::new(),
        "Tailscale is not running.".to_string(),
    );
    assert_eq!(Tailscale::is_enabled(&not_running).unwrap(), false);
    let cannot_connect = CommandOutput::new(
        false,
        String::new(),
        "failed: Cannot connect to the Tailscale daemon\n".to_string(),
    );
    assert_eq!(Tailscale::is_enabled(&cannot_connect).unwrap(), false);
}

#[test]
fn is_enabled_unknown_failure_propagates() {
    let output = CommandOutput::new(false, String::new(), "segfault".to_string());
    match Tailscale::is_enabled(&output) {
        Err(TailscaleError::CommandFailed(msg)) => assert_eq!(msg, "segfault"),
        other => panic!("unexpected result: {:?}", other),
    }
}

#[test]
fn up_and_down_report_failure_stderr() {
    let output = CommandOutput::new(false, String::new(), "not permitted".to_string());
    match Tailscale::up(&output) {
        Err(TailscaleError::CommandFailed(msg)) => assert_eq!(msg, "not permitted"),
        other => panic!("unexpected result: {:?}", other),
    }
    match Tailscale::down(&output) {
        Err(TailscaleError::CommandFailed(msg)) => assert_eq!(msg, "not permitted"),
        other => panic!("unexpected result: {:?}", other),
    }
    let ok = CommandOutput::new(true, String::new(), String::new());
    assert!(Tailscale::up(&ok).is_ok());
    assert!(Tailscale::down(&ok).is_ok());
}

#[test]
fn toggle_decision_counts_errors_as_disabled() {
    assert_eq!(Tailscale::toggle(Ok(true)), TailscaleAction::Down);
    assert_eq!(Tailscale::toggle(Ok(false)), TailscaleAction::Up);
    let err = TailscaleError::CommandFailed("boom".to_string());
    assert_eq!(Tailscale::toggle(Err(err)), TailscaleAction::Up);
}

#[test]
fn tailscale_error_messages() {
    let e = TailscaleError::CommandError("no such file".to_string());
    assert_eq!(
        e.describe(),
        "Failed to execute tailscale command: no such file"
    );
    let e = TailscaleError::CommandFailed("boom".to_string());
    assert_eq!(e.describe(), "Tailscale command failed with stderr: boom");
    let e = TailscaleError::ParseError("bad".to_string());
    assert_eq!(e.describe(), "Failed to parse tailscale output: bad");
    assert_eq!(
        TailscaleError::DaemonStopped.describe(),
        "Tailscale daemon is stopped."
    );
}
