//! The run of a script.

use corevisor::execution::{execution_result, js_result, ExecutionClock, RunOutcome};

#[test]
fn clock_pauses_while_an_approval_is_pending() {
    let mut clock = ExecutionClock::new(300);
    assert!(!clock.tick(100, false));
    assert!(!clock.tick(10_000, true));
    assert!(!clock.tick(199, false));
    assert!(clock.tick(1, false));
    assert_eq!(clock.elapsed, 300);
}

#[test]
fn clock_without_time_is_over_at_the_first_tick() {
    assert!(ExecutionClock::new(0).tick(0, true));
}

#[test]
fn clean_run_succeeds() {
    let result = execution_result(RunOutcome::Finished, b"out", b"", 30, 0);
    assert_eq!(result.stdout, "out");
    assert_eq!(result.stderr, "");
    assert!(result.success);
}

#[test]
fn output_on_stderr_is_a_failure() {
    let result = execution_result(RunOutcome::Finished, b"out", b"oops", 30, 0);
    assert_eq!(result.stderr, "oops");
    assert!(!result.success);
}

#[test]
fn error_exit_is_a_failure() {
    let result = execution_result(RunOutcome::ExitedWithError, b"", b"", 30, 0);
    assert_eq!(result.stderr, "");
    assert!(!result.success);
}

#[test]
fn timeout_is_told() {
    let trap = RunOutcome::Trapped("wasm trap: epoch deadline reached".to_string());
    let result = execution_result(trap, b"partial", b"log", 30, 0);
    assert_eq!(result.stdout, "partial");
    assert_eq!(result.stderr, "log\nExecution timed out after 30s");
    assert!(!result.success);
}

#[test]
fn timeout_is_shown_with_its_fraction() {
    let trap = RunOutcome::Trapped("epoch".to_string());
    let result = execution_result(trap, b"", b"", 1, 500_000_000);
    assert_eq!(result.stderr, "\nExecution timed out after 1.5s");
}

#[test]
fn trap_shows_where_stderr_is_empty() {
    let quiet = js_result(
        RunOutcome::Trapped("unreachable".to_string()),
        String::new(),
        String::new(),
        "30s",
    );
    assert_eq!(quiet.stderr, "unreachable");
    let loud = js_result(
        RunOutcome::Trapped("unreachable".to_string()),
        String::new(),
        "log".to_string(),
        "30s",
    );
    assert_eq!(loud.stderr, "log");
    assert!(!loud.success);
}

#[test]
fn invalid_utf8_is_replaced() {
    let result = execution_result(RunOutcome::Finished, b"a\xffb", b"", 30, 0);
    assert_eq!(result.stdout, "a\u{fffd}b");
}
