use rjest::server::AggregatedResults;
use rjest::worker::{SnapshotSummary, TestFileResult, TestResult};

fn create_test_result(status: &str, duration_ms: u64) -> TestResult {
    TestResult {
        name: format!("test_{}", status),
        status: status.to_string(),
        duration_ms,
        error: None,
    }
}

fn create_test_file_result(passed: bool, tests: Vec<TestResult>) -> TestFileResult {
    TestFileResult {
        path: "test/example.test.ts".to_string(),
        passed,
        duration_ms: 100,
        tests,
        snapshot_summary: None,
    }
}

#[test]
fn test_aggregated_results_new() {
    let aggregated = AggregatedResults::new();
    assert_eq!(aggregated.num_passed_suites, 0);
    assert_eq!(aggregated.num_failed_suites, 0);
    assert_eq!(aggregated.num_passed_tests, 0);
    assert_eq!(aggregated.num_failed_tests, 0);
    assert!(aggregated.test_results.is_empty());
    assert!(aggregated.build_snapshot_summary().is_none());
    assert!(aggregated.success());
}

#[test]
fn test_aggregated_results_add_passed_file() {
    let mut aggregated = AggregatedResults::new();
    let test_file = create_test_file_result(
        true,
        vec![create_test_result("passed", 10), create_test_result("passed", 20)],
    );
    aggregated.add_file_result(test_file);

    assert_eq!(aggregated.num_passed_suites, 1);
    assert_eq!(aggregated.num_failed_suites, 0);
    assert_eq!(aggregated.num_passed_tests, 2);
    assert_eq!(aggregated.num_failed_tests, 0);
    assert_eq!(aggregated.test_results.len(), 1);
    assert!(aggregated.success());
}

#[test]
fn test_aggregated_results_add_failed_file() {
    let mut aggregated = AggregatedResults::new();
    let test_file = create_test_file_result(
        false,
        vec![create_test_result("passed", 10), create_test_result("failed", 20)],
    );
    aggregated.add_file_result(test_file);

    assert_eq!(aggregated.num_passed_suites, 0);
    assert_eq!(aggregated.num_failed_suites, 1);
    assert_eq!(aggregated.num_passed_tests, 1);
    assert_eq!(aggregated.num_failed_tests, 1);
    assert!(!aggregated.success());
}

#[test]
fn test_aggregated_results_add_transform_error() {
    let mut aggregated = AggregatedResults::new();
    aggregated.add_transform_error(
        "/test/example.test.ts".to_string(),
        "Transform failed: syntax error".to_string(),
    );

    assert_eq!(aggregated.num_passed_suites, 0);
    assert_eq!(aggregated.num_failed_suites, 1);
    assert_eq!(aggregated.test_results.len(), 1);
    assert!(!aggregated.test_results[0].passed);
    assert_eq!(aggregated.test_results[0].tests.len(), 1);
    assert_eq!(aggregated.test_results[0].tests[0].name, "transform");
    assert!(!aggregated.success());
}

#[test]
fn test_aggregated_results_snapshot_summary_with_snapshots() {
    let mut aggregated = AggregatedResults::new();
    let file_result = TestFileResult {
        path: "test/example.test.ts".to_string(),
        passed: true,
        duration_ms: 100,
        tests: vec![],
        snapshot_summary: Some(SnapshotSummary { added: 2, updated: 1, matched: 5, unmatched: 1 }),
    };
    aggregated.add_file_result(file_result);

    let summary = aggregated.build_snapshot_summary().unwrap();
    assert_eq!(summary.added, 2);
    assert_eq!(summary.updated, 1);
    assert_eq!(summary.matched, 5);
    assert_eq!(summary.unmatched, 1);
}

#[test]
fn test_aggregated_results_snapshot_summary_empty() {
    let aggregated = AggregatedResults::new();
    assert!(aggregated.build_snapshot_summary().is_none());
}

#[test]
fn test_aggregated_results_all_test_statuses() {
    let mut aggregated = AggregatedResults::new();
    let file_result = TestFileResult {
        path: "test/example.test.ts".to_string(),
        passed: true,
        duration_ms: 100,
        tests: vec![
            create_test_result("passed", 10),
            create_test_result("failed", 20),
            create_test_result("skipped", 30),
            create_test_result("todo", 40),
        ],
        snapshot_summary: None,
    };
    aggregated.add_file_result(file_result);

    assert_eq!(aggregated.num_passed_tests, 1);
    assert_eq!(aggregated.num_failed_tests, 1);
    assert_eq!(aggregated.num_skipped_tests, 1);
    assert_eq!(aggregated.num_todo_tests, 1);
    assert_eq!(aggregated.num_passed_suites, 1);
    assert!(!aggregated.success());
}

#[test]
fn test_aggregated_results_multiple_files() {
    let mut aggregated = AggregatedResults::new();
    aggregated.add_file_result(create_test_file_result(true, vec![create_test_result("passed", 10)]));
    aggregated.add_file_result(create_test_file_result(false, vec![create_test_result("failed", 20)]));

    assert_eq!(aggregated.num_passed_suites, 1);
    assert_eq!(aggregated.num_failed_suites, 1);
    assert_eq!(aggregated.num_passed_tests, 1);
    assert_eq!(aggregated.num_failed_tests, 1);
    assert!(!aggregated.success());
}

#[test]
fn test_aggregated_results_accumulates_snapshots() {
    let mut aggregated = AggregatedResults::new();
    let file1 = TestFileResult {
        path: "test/file1.test.ts".to_string(),
        passed: true,
        duration_ms: 50,
        tests: vec![],
        snapshot_summary: Some(SnapshotSummary { added: 1, updated: 0, matched: 2, unmatched: 0 }),
    };
    let file2 = TestFileResult {
        path: "test/file2.test.ts".to_string(),
        passed: true,
        duration_ms: 60,
        tests: vec![],
        snapshot_summary: Some(SnapshotSummary { added: 2, updated: 1, matched: 3, unmatched: 1 }),
    };
    aggregated.add_file_result(file1);
    aggregated.add_file_result(file2);

    let summary = aggregated.build_snapshot_summary().unwrap();
    assert_eq!(summary.added, 3); // 1 + 2
    assert_eq!(summary.updated, 1); // 0 + 1
    assert_eq!(summary.matched, 5); // 2 + 3
    assert_eq!(summary.unmatched, 1); // 0 + 1
}

#[test]
fn unknown_status_fails_without_counting() {
    let mut aggregated = AggregatedResults::new();
    aggregated.add_file_result(create_test_file_result(true, vec![create_test_result("weird", 1)]));
    assert_eq!(aggregated.num_failed_tests, 0);
    assert_eq!(aggregated.test_results[0].tests[0].status, rjest::protocol::TestStatus::Failed);
    assert!(aggregated.success());
}

fn count(a: &AggregatedResults, st: rjest::protocol::TestStatus) -> u32 {
    a.test_results.iter().flat_map(|f| f.tests.iter()).filter(|t| t.status == st).count() as u32
}

#[test]
fn tally_counters_agree_with_results() {
    let a = &mut AggregatedResults::new();
    a.add_file_result(create_test_file_result(
        false,
        vec![create_test_result("passed", 1), create_test_result("failed", 2), create_test_result("weird", 3)],
    ));
    a.add_transform_error("src/broken.test.ts".to_string(), "Parse error".to_string());
    a.add_file_result(create_test_file_result(
        true,
        vec![create_test_result("skipped", 1), create_test_result("todo", 1), create_test_result("passed", 1)],
    ));
    assert_eq!((a.num_passed_suites + a.num_failed_suites) as usize, a.test_results.len());
    assert_eq!(a.num_passed_suites as usize, a.test_results.iter().filter(|f| f.passed).count());
    assert_eq!(a.num_passed_tests, count(a, rjest::protocol::TestStatus::Passed));
    assert_eq!(a.num_skipped_tests, count(a, rjest::protocol::TestStatus::Skipped));
    assert_eq!(a.num_todo_tests, count(a, rjest::protocol::TestStatus::Todo));
    // The unknown status and the failed transform show as failed but are
    // not counted.
    assert_eq!(a.num_failed_tests, 1);
    assert_eq!(count(a, rjest::protocol::TestStatus::Failed), 3);
    assert!(!a.success());
}
