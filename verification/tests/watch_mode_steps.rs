use rjest::protocol::{ErrorCode, ErrorResponse, RunResponse, WatchPollResponse, WatchStartedResponse};
use rjest::watch_mode::{watch_step, WatchAction, WatchEvent, WatchPhase};

fn run(success: bool) -> RunResponse {
    RunResponse {
        success,
        num_passed_suites: 1,
        num_failed_suites: if success { 0 } else { 1 },
        num_passed_tests: 3,
        num_failed_tests: if success { 0 } else { 1 },
        num_skipped_tests: 0,
        num_todo_tests: 0,
        duration_ms: 12,
        test_results: vec![],
        snapshot_summary: None,
    }
}

fn error(message: &str) -> ErrorResponse {
    ErrorResponse { code: ErrorCode::InternalError, message: message.to_string(), details: None }
}

fn session(phase: &WatchPhase) -> Option<String> {
    match phase {
        WatchPhase::Watching(id) => Some(id.clone()),
        _ => None,
    }
}

#[test]
fn started_session_shows_first_run_and_watches() {
    let started = WatchStartedResponse { session_id: "s-1".to_string(), initial_run: run(false) };
    let (phase, action) = watch_step(&WatchPhase::Starting, WatchEvent::Started(started));
    assert_eq!(session(&phase), Some("s-1".to_string()));
    match action {
        WatchAction::Show { notes, run, closing } => {
            assert!(notes.is_empty());
            assert!(!run.unwrap().success);
            assert_eq!(closing, Some("\nTests failed. Watching for changes...".to_string()));
        }
        _ => panic!("expected the first run to be shown"),
    }
}

#[test]
fn failed_start_gives_up_with_the_daemon_message() {
    let (phase, action) = watch_step(&WatchPhase::Starting, WatchEvent::Failed(error("no tests")));
    assert!(matches!(phase, WatchPhase::Finished));
    match action {
        WatchAction::Abort(m) => assert_eq!(m, "Failed to start watch mode: no tests"),
        _ => panic!("expected to give up"),
    }
    let (_, action) = watch_step(&WatchPhase::Starting, WatchEvent::Unexpected);
    match action {
        WatchAction::Abort(m) => assert_eq!(m, "Unexpected response from daemon"),
        _ => panic!("expected to give up"),
    }
}

#[test]
fn poll_with_changes_lists_files_and_shows_run() {
    let poll = WatchPollResponse {
        has_changes: true,
        run_result: Some(run(true)),
        changed_files: vec!["src/a.ts".to_string(), "src/b.ts".to_string()],
    };
    let phase = WatchPhase::Watching("s-2".to_string());
    let (next, action) = watch_step(&phase, WatchEvent::Polled(poll));
    assert_eq!(session(&next), Some("s-2".to_string()));
    match action {
        WatchAction::Show { notes, run, closing } => {
            assert_eq!(
                notes,
                vec![
                    "\n\x1b[2m--- File changes detected ---\x1b[0m".to_string(),
                    "  src/a.ts".to_string(),
                    "  src/b.ts".to_string(),
                    String::new(),
                ]
            );
            assert!(run.unwrap().success);
            assert_eq!(closing, Some("\nWatching for changes...".to_string()));
        }
        _ => panic!("expected the changes to be shown"),
    }
}

#[test]
fn quiet_poll_and_poll_errors() {
    let phase = WatchPhase::Watching("s-3".to_string());
    let quiet = WatchPollResponse { has_changes: false, run_result: None, changed_files: vec![] };
    let (_, action) = watch_step(&phase, WatchEvent::Polled(quiet));
    assert!(matches!(action, WatchAction::Idle));
    let (next, action) = watch_step(&phase, WatchEvent::Failed(error("session lost")));
    assert_eq!(session(&next), Some("s-3".to_string()));
    match action {
        WatchAction::Show { notes, run, closing } => {
            assert_eq!(notes, vec!["Watch error: session lost".to_string()]);
            assert!(run.is_none());
            assert!(closing.is_none());
        }
        _ => panic!("expected the error to be shown"),
    }
}

#[test]
fn interruption_stops_the_session_once() {
    let phase = WatchPhase::Watching("s-4".to_string());
    let (next, action) = watch_step(&phase, WatchEvent::Interrupted);
    assert!(matches!(next, WatchPhase::Finished));
    match action {
        WatchAction::Stop(id) => assert_eq!(id, "s-4"),
        _ => panic!("expected the session to be stopped"),
    }
    let (after, action) = watch_step(&next, WatchEvent::Interrupted);
    assert!(matches!(after, WatchPhase::Finished));
    assert!(matches!(action, WatchAction::Idle));
}
