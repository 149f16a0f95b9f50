use rjest::worker::{
    effective_worker_count, get_max_workers_from_env, is_idle, needs_recycle, parallel_plan,
    parse_usize, place_results, respawn_after_cleanup, SnapshotSummary, TestError, TestFileResult,
    TestResult, WorkerConfig,
};

#[test]
fn test_worker_config_default_values() {
    let config = WorkerConfig {
        root_dir: "/test".to_string(),
        setup_files: vec![],
        setup_files_after_env: vec![],
        test_timeout: 5000,
        clear_mocks: false,
        reset_mocks: false,
        restore_mocks: false,
        update_snapshots: false,
        test_name_pattern: None,
    };

    assert_eq!(config.test_timeout, 5000);
    assert!(!config.clear_mocks);
    assert!(!config.update_snapshots);
}

#[test]
fn test_test_result_creation() {
    let result = TestResult {
        name: "test example".to_string(),
        status: "passed".to_string(),
        duration_ms: 100,
        error: None,
    };

    assert_eq!(result.name, "test example");
    assert_eq!(result.status, "passed");
    assert_eq!(result.duration_ms, 100);
    assert!(result.error.is_none());
}

#[test]
fn test_test_file_result_creation() {
    let result = TestFileResult {
        path: "test/example.test.ts".to_string(),
        passed: true,
        duration_ms: 500,
        tests: vec![],
        snapshot_summary: None,
    };

    assert!(result.passed);
    assert_eq!(result.duration_ms, 500);
    assert!(result.tests.is_empty());
    assert!(result.snapshot_summary.is_none());
}

#[test]
fn test_snapshot_summary_default() {
    let summary = SnapshotSummary::default();
    assert_eq!(summary.added, 0);
    assert_eq!(summary.updated, 0);
    assert_eq!(summary.matched, 0);
    assert_eq!(summary.unmatched, 0);
}

#[test]
fn test_snapshot_summary_with_values() {
    let summary = SnapshotSummary { added: 2, updated: 1, matched: 5, unmatched: 1 };

    assert_eq!(summary.added, 2);
    assert_eq!(summary.updated, 1);
    assert_eq!(summary.matched, 5);
    assert_eq!(summary.unmatched, 1);
}

#[test]
fn test_test_error_creation() {
    let error = TestError {
        message: "Expected 1 to equal 2".to_string(),
        stack: Some("at test (test/example.test.ts:10:5)".to_string()),
        diff: Some("  - Expected\n  + Received\n\n  1\n  2".to_string()),
    };

    assert!(error.message.contains("Expected"));
    assert!(error.stack.is_some());
    assert!(error.diff.is_some());
}

#[test]
fn test_worker_config_with_test_pattern() {
    let config = WorkerConfig {
        root_dir: "/test".to_string(),
        setup_files: vec![],
        setup_files_after_env: vec![],
        test_timeout: 5000,
        clear_mocks: false,
        reset_mocks: false,
        restore_mocks: false,
        update_snapshots: false,
        test_name_pattern: Some("skip.*".to_string()),
    };

    assert_eq!(config.test_name_pattern, Some("skip.*".to_string()));
}

#[test]
fn parse_usize_reads_like_std() {
    for s in ["0", "42", "+7", "", "+", "-1", "4a", " 4", "18446744073709551615", "18446744073709551616", "007"] {
        assert_eq!(parse_usize(s), s.parse::<usize>().ok(), "input {:?}", s);
    }
}

#[test]
fn max_workers_setting() {
    assert_eq!(get_max_workers_from_env(None), 4);
    assert_eq!(get_max_workers_from_env(Some("8")), 8);
    assert_eq!(get_max_workers_from_env(Some("eight")), 4);
}

#[test]
fn pool_decisions() {
    assert_eq!(effective_worker_count(10, 4), 4);
    assert_eq!(effective_worker_count(40, 100), 4);
    assert_eq!(effective_worker_count(8, 8), 4);
    assert_eq!(effective_worker_count(2, 4), 2);
    assert!(needs_recycle(1000));
    assert!(!needs_recycle(999));
    assert!(is_idle(60_000_000_001));
    assert!(!is_idle(60_000_000_000));
    assert!(respawn_after_cleanup(3, 0, 4));
    assert!(!respawn_after_cleanup(0, 0, 4));
    assert!(!respawn_after_cleanup(3, 0, 0));
    assert_eq!(parallel_plan(4, 10), (4, false));
    assert_eq!(parallel_plan(4, 1), (1, true));
    assert_eq!(parallel_plan(0, 5), (1, true));
    assert_eq!(parallel_plan(8, 3), (3, false));
}

#[test]
fn results_land_in_their_slots() {
    let placed = place_results(4, vec![(2, "c"), (0, "a"), (2, "c2")]);
    assert_eq!(placed, vec![Some("a"), None, Some("c2"), None]);
}
