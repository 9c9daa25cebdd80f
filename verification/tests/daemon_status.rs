use tray_core::command::CommandOutput;
use tray_core::docker::DaemonAction;
use tray_core::docker::Docker;
use tray_core::docker::DockerError;

fn query(stdout: &str) -> CommandOutput {
    CommandOutput::new(true, stdout.to_string(), String::new())
}

#[test]
fn full_status_scenario() {
    let text = "Loaded: loaded (...)\nActive: active (running) since Mon\nMain PID: 4821 (dockerd)\nMem peak: 128.4M\n";
    let st = Docker::status(&query(text));
    assert!(st.is_active);
    assert_eq!(st.main_pid, Some(4821));
    assert_eq!(st.memory_peak.as_deref(), Some("128.4M"));
    assert_eq!(st.active_state, "active (running) since Mon");
    assert_eq!(st.loaded_state, "loaded (...)");
    assert_eq!(st.cpu_time, None);
    assert_eq!(st.raw_output, text);
}

#[test]
fn active_running_sets_flag() {
    let st = Docker::status(&query("   Active: active (running) since Tue\n"));
    assert!(st.is_active);
    assert_eq!(st.active_state, "active (running) since Tue");
}

#[test]
fn active_other_value_clears_flag() {
    let st = Docker::status(&query("Active: inactive (dead)\n"));
    assert!(!st.is_active);
    assert_eq!(st.active_state, "inactive (dead)");
}

#[test]
fn parses_despite_nonzero_exit() {
    let output = CommandOutput::new(false, "Active: inactive (dead)\n".to_string(), String::new());
    let st = Docker::status(&output);
    assert!(!st.is_active);
    assert_eq!(st.active_state, "inactive (dead)");
}

#[test]
fn main_pid_with_extra_info() {
    let st = Docker::status(&query("Main PID: 1234 (extra info)\n"));
    assert_eq!(st.main_pid, Some(1234));
}

#[test]
fn main_pid_absent() {
    let st = Docker::status(&query("Active: active (running)\n"));
    assert_eq!(st.main_pid, None);
}

#[test]
fn main_pid_not_a_number() {
    let st = Docker::status(&query("Main PID: notanumber\n"));
    assert_eq!(st.main_pid, None);
}

#[test]
fn main_pid_with_plus_sign() {
    let st = Docker::status(&query("Main PID: +123\n"));
    assert_eq!(st.main_pid, Some(123));
}

#[test]
fn main_pid_at_u32_max() {
    let st = Docker::status(&query("Main PID: 4294967295\n"));
    assert_eq!(st.main_pid, Some(4294967295));
}

#[test]
fn main_pid_overflow_degrades_to_none() {
    let st = Docker::status(&query("Main PID: 4294967296\n"));
    assert_eq!(st.main_pid, None);
}

#[test]
fn later_lines_override_earlier_ones() {
    let st = Docker::status(&query("Active: inactive (dead)\nActive: active (running)\n"));
    assert!(st.is_active);
    assert_eq!(st.active_state, "active (running)");
}

#[test]
fn unknown_lines_are_ignored() {
    let st = Docker::status(&query("something else entirely\nCPU: 2min 3s\n"));
    assert_eq!(st.cpu_time.as_deref(), Some("2min 3s"));
    assert_eq!(st.active_state, "");
    assert!(!st.is_active);
}

#[test]
fn empty_text_gives_defaults() {
    let st = Docker::status(&query(""));
    assert!(!st.is_active);
    assert_eq!(st.active_state, "");
    assert_eq!(st.loaded_state, "");
    assert_eq!(st.main_pid, None);
    assert_eq!(st.memory_peak, None);
    assert_eq!(st.cpu_time, None);
}

#[test]
fn is_active_follows_status() {
    assert!(Docker::is_active(&query("Active: active (running)\n")));
    assert!(!Docker::is_active(&query("Active: activating (start)\n")));
}

#[test]
fn start_reports_failure_stderr() {
    let output = CommandOutput::new(false, String::new(), "permission denied".to_string());
    match Docker::start(&output) {
        Err(DockerError::CommandFailed(msg)) => assert_eq!(msg, "permission denied"),
        other => panic!("unexpected result: {:?}", other),
    }
    assert!(Docker::start(&CommandOutput::new(true, String::new(), String::new())).is_ok());
}

#[test]
fn stop_reports_failure_stderr() {
    let output = CommandOutput::new(false, String::new(), "unit not loaded".to_string());
    match Docker::stop(&output) {
        Err(DockerError::CommandFailed(msg)) => assert_eq!(msg, "unit not loaded"),
        other => panic!("unexpected result: {:?}", other),
    }
    assert!(Docker::stop(&CommandOutput::new(true, String::new(), String::new())).is_ok());
}

#[test]
fn toggle_decision_counts_query_errors_as_inactive() {
    assert_eq!(Docker::toggle(Ok(true)), DaemonAction::Stop);
    assert_eq!(Docker::toggle(Ok(false)), DaemonAction::Start);
    let err = DockerError::CommandFailed("boom".to_string());
    assert_eq!(Docker::toggle(Err(err)), DaemonAction::Start);
}

#[test]
fn parse_line_value_strips_only_a_leading_key() {
    let line: Vec<char> = "Active:  active (running)  ".chars().collect();
    let value = Docker::parse_line_value(&line, "Active:").unwrap();
    let value: String = value.into_iter().collect();
    assert_eq!(value, "active (running)");
    // The helper takes the line as given: a line with leading whitespace
    // does not start with the key.
    let indented: Vec<char> = "  Active: active (running)".chars().collect();
    assert!(Docker::parse_line_value(&indented, "Active:").is_none());
    let other: Vec<char> = "Loaded: loaded".chars().collect();
    assert!(Docker::parse_line_value(&other, "Active:").is_none());
}

#[test]
fn status_trims_lines_before_matching() {
    let st = Docker::status(&query("     Active: active (running) since Wed\n"));
    assert!(st.is_active);
    assert_eq!(st.active_state, "active (running) since Wed");
}

#[test]
fn docker_error_messages() {
    let e = DockerError::CommandError("no such file".to_string());
    assert_eq!(
        e.describe(),
        "Failed to execute systemctl command: no such file"
    );
    let e = DockerError::CommandFailed("boom".to_string());
    assert_eq!(e.describe(), "Sudo/systemctl command failed with stderr: boom");
    let e = DockerError::ParseError("bad line".to_string());
    assert_eq!(e.describe(), "Failed to parse systemctl output: bad line");
}
