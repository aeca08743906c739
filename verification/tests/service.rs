//! Tests of the process supervisor: start/stop/ownership transitions, the
//! health-probe helpers, and the formatted messages and commands.

use relay_core::cli::extract_directory_from_args;
use relay_core::decimal::u64_to_decimal;
use relay_core::supervisor::ServiceState;
use relay_core::supervisor::health_url;
use relay_core::supervisor::interpret_probe;
use relay_core::supervisor::should_keep_polling;
use relay_core::supervisor::spawn_failure_message;
use relay_core::supervisor::terminate_command;

#[test]
fn start_when_already_running_spawns_nothing() {
    let mut state = ServiceState::new();
    assert!(state.start_needs_spawn(false));
    state.record_spawn(101);
    // Second start: the service is healthy now, so nothing is spawned and
    // the tracked process is untouched.
    assert!(!state.start_needs_spawn(true));
    assert_eq!(state.tracked_pid(), Some(101));
    assert!(state.query_ownership());
}

#[test]
fn stop_without_process_is_a_successful_noop() {
    let mut state = ServiceState::new();
    assert_eq!(state.stop(), None);
    assert_eq!(state.tracked_pid(), None);
    assert!(!state.query_ownership());
}

#[test]
fn stop_clears_pid_and_ownership_together() {
    let mut state = ServiceState::new();
    state.record_spawn(7);
    assert!(state.query_ownership());
    assert_eq!(state.stop(), Some(7));
    assert_eq!(state.tracked_pid(), None);
    assert!(!state.query_ownership(), "ownership query after stop must be false");
}

#[test]
fn confirm_close_keeping_service_changes_nothing() {
    let mut state = ServiceState::new();
    state.record_spawn(42);
    assert_eq!(state.confirm_close(false), None);
    assert_eq!(state.tracked_pid(), Some(42));
    assert!(state.query_ownership());
}

#[test]
fn confirm_close_stopping_service_takes_the_pid() {
    let mut state = ServiceState::new();
    state.record_spawn(42);
    assert_eq!(state.confirm_close(true), Some(42));
    assert_eq!(state.tracked_pid(), None);
    assert!(!state.query_ownership());
}

#[test]
fn default_supervisor_is_empty() {
    let state = ServiceState::default();
    assert_eq!(state.tracked_pid(), None);
    assert!(!state.query_ownership());
}

#[test]
fn health_url_trims_trailing_slashes() {
    assert_eq!(health_url("http://localhost:4096"), "http://localhost:4096/global/health");
    assert_eq!(health_url("http://localhost:4096/"), "http://localhost:4096/global/health");
    assert_eq!(health_url("http://localhost:4096///"), "http://localhost:4096/global/health");
    assert_eq!(health_url(""), "/global/health");
}

#[test]
fn probe_outcomes_collapse_to_liveness() {
    assert!(interpret_probe(Some(200)));
    assert!(interpret_probe(Some(204)));
    assert!(interpret_probe(Some(299)));
    assert!(!interpret_probe(Some(301)));
    assert!(!interpret_probe(Some(404)));
    assert!(!interpret_probe(Some(500)));
    assert!(!interpret_probe(None), "a failed probe is not running, never an error");
}

#[test]
fn polling_budget_is_thirty_checks() {
    assert!(should_keep_polling(0));
    assert!(should_keep_polling(29));
    assert!(!should_keep_polling(30));
}

#[test]
fn spawn_failure_names_the_binary() {
    assert_eq!(
        spawn_failure_message("/usr/bin/worker", "No such file or directory"),
        "Failed to start '/usr/bin/worker': No such file or directory. \
         Check that the path is correct."
    );
}

#[test]
fn terminate_command_lines() {
    assert_eq!(terminate_command(1234, false), vec!["kill", "1234"]);
    assert_eq!(terminate_command(1234, true), vec!["taskkill", "/PID", "1234", "/F", "/T"]);
}

#[test]
fn decimal_rendering_is_exact() {
    assert_eq!(u64_to_decimal(0), "0");
    assert_eq!(u64_to_decimal(9), "9");
    assert_eq!(u64_to_decimal(10), "10");
    assert_eq!(u64_to_decimal(404), "404");
    assert_eq!(u64_to_decimal(65535), "65535");
    assert_eq!(u64_to_decimal(u64::MAX), "18446744073709551615");
}

fn strings(items: &[&str]) -> Vec<String> {
    items.iter().map(|s| String::from(*s)).collect()
}

#[test]
fn directory_argument_is_first_non_flag_directory() {
    let args = strings(&["prog", "--flag", "notdir", "dir1", "dir2"]);
    let dirs = vec![false, false, false, true, true];
    assert_eq!(extract_directory_from_args(&args, &dirs), Some(String::from("dir1")));
}

#[test]
fn flags_are_skipped_even_when_directories() {
    let args = strings(&["prog", "-d"]);
    let dirs = vec![false, true];
    assert_eq!(extract_directory_from_args(&args, &dirs), None);
}

#[test]
fn program_name_is_never_picked() {
    let args = strings(&["somedir"]);
    let dirs = vec![true];
    assert_eq!(extract_directory_from_args(&args, &dirs), None);
}

#[test]
fn no_directory_argument_yields_none() {
    let args = strings(&["prog", "a", "b"]);
    let dirs = vec![false, false, false];
    assert_eq!(extract_directory_from_args(&args, &dirs), None);
}
