use rjest::args::Args;
use rjest::output::{health_report, human_report, render, report_time_line, run_error_message, Rendering};
use rjest::protocol::{
    ErrorCode, ErrorResponse, HealthResponse, RunResponse, SnapshotSummary, SourceLocation, TestError,
    TestFileResult, TestResult, TestStatus, WorkerHealth,
};

fn args(json: bool, machine: bool, verbose: bool) -> Args {
    Args {
        patterns: vec![],
        run_in_band: false,
        watch: false,
        watch_all: false,
        bail: false,
        json,
        machine,
        verbose,
        max_workers: None,
        config: None,
        only_changed: false,
        find_related_tests: vec![],
        update_snapshots: false,
        coverage: false,
        test_name_pattern: None,
        fallback_to_jest: false,
        daemon_status: false,
        daemon_stop: false,
        daemon_restart: false,
        daemon_health: false,
    }
}

fn response() -> RunResponse {
    RunResponse {
        success: false,
        num_passed_suites: 1,
        num_failed_suites: 1,
        num_passed_tests: 2,
        num_failed_tests: 1,
        num_skipped_tests: 1,
        num_todo_tests: 0,
        duration_ms: 1234,
        test_results: vec![
            TestFileResult {
                path: "/p/a.test.js".to_string(),
                passed: true,
                duration_ms: 3,
                tests: vec![
                    TestResult { name: "adds".to_string(), status: TestStatus::Passed, duration_ms: 1, error: None },
                    TestResult { name: "later".to_string(), status: TestStatus::Skipped, duration_ms: 0, error: None },
                ],
                console_output: None,
            },
            TestFileResult {
                path: "/p/b.test.js".to_string(),
                passed: false,
                duration_ms: 4,
                tests: vec![
                    TestResult { name: "works".to_string(), status: TestStatus::Passed, duration_ms: 2, error: None },
                    TestResult {
                        name: "breaks".to_string(),
                        status: TestStatus::Failed,
                        duration_ms: 5,
                        error: Some(TestError {
                            message: "expected 1\nreceived 2".to_string(),
                            stack: None,
                            diff: Some("- 1\n+ 2\n  same".to_string()),
                            location: Some(SourceLocation { file: "b.test.js".to_string(), line: 7, column: None }),
                        }),
                    },
                ],
                console_output: None,
            },
        ],
        snapshot_summary: Some(SnapshotSummary { added: 1, updated: 0, removed: 0, matched: 3, unmatched: 2, unchecked: 0 }),
    }
}

#[test]
fn human_report_lines() {
    let lines = human_report(&response(), false);
    let expected: Vec<&str> = vec![
        "\x1b[32m PASS \x1b[0m /p/a.test.js",
        "\x1b[31m FAIL \x1b[0m /p/b.test.js",
        "",
        "Failures:",
        "",
        "  \x1b[31m\u{25cf} /p/b.test.js > breaks\x1b[0m",
        "",
        "    expected 1",
        "    received 2",
        "",
        "    \x1b[31m- 1\x1b[0m",
        "    \x1b[32m+ 2\x1b[0m",
        "      same",
        "",
        "      at b.test.js:7",
        "",
        "",
        "Test Suites: \x1b[31m1 failed\x1b[0m, 1 passed, 2 total",
        "Tests:       \x1b[31m1 failed\x1b[0m, 2 passed, 4 total",
        "Skipped:     1",
        "Snapshots:   3 passed, 1 added, \x1b[31m2 failed\x1b[0m",
    ];
    assert_eq!(lines, expected.iter().map(|s| s.to_string()).collect::<Vec<_>>());
}

#[test]
fn verbose_report_lists_tests() {
    let mut r = response();
    r.test_results.truncate(1);
    r.success = true;
    r.num_failed_suites = 0;
    r.num_failed_tests = 0;
    r.snapshot_summary = None;
    let lines = human_report(&r, true);
    assert_eq!(lines[0], "\x1b[32m PASS \x1b[0m /p/a.test.js");
    assert_eq!(lines[1], "  \x1b[32m\u{2713} adds\x1b[0m (1 ms)");
    assert_eq!(lines[2], "  \x1b[33m\u{25cb} later\x1b[0m (0 ms)");
    assert_eq!(lines[3], "");
    assert_eq!(lines[4], "Test Suites: \x1b[32m1 passed\x1b[0m, 1 total");
    assert_eq!(lines[5], "Tests:       \x1b[32m2 passed\x1b[0m, 3 total");
    assert_eq!(lines[6], "Skipped:     1");
    assert_eq!(lines.len(), 7);
}

#[test]
fn json_or_human() {
    assert!(matches!(render(&response(), &args(true, false, false)), Rendering::Json));
    assert!(matches!(render(&response(), &args(false, true, false)), Rendering::Json));
    match render(&response(), &args(false, false, false)) {
        Rendering::Human(lines) => assert_eq!(lines.len(), 21),
        Rendering::Json => panic!("expected lines"),
    }
}

#[test]
fn health_lines() {
    let h = HealthResponse {
        healthy: false,
        version: "0.1.3".to_string(),
        uptime_secs: 10,
        latency_us: 15,
        memory_bytes: 4096,
        workers: vec![
            WorkerHealth { id: 0, alive: true, busy: false, tests_run: 3, idle_secs: 2 },
            WorkerHealth { id: 1, alive: false, busy: false, tests_run: 0, idle_secs: 9 },
            WorkerHealth { id: 2, alive: true, busy: true, tests_run: 1, idle_secs: 0 },
        ],
        watch_sessions: 1,
        cached_projects: 2,
        issues: vec!["Worker 1 is not alive".to_string()],
    };
    let expected: Vec<&str> = vec![
        "Health: \x1b[31mUNHEALTHY\x1b[0m",
        "",
        "Version:         0.1.3",
        "Uptime:          10s",
        "Response time:   15 us",
        "Memory:          4 KB",
        "",
        "Resources:",
        "  Cached projects:  2",
        "  Watch sessions:   1",
        "",
        "Workers:",
        "  Worker 0: \x1b[32mIDLE\x1b[0m - 3 tests run, idle 2s",
        "  Worker 1: \x1b[31mDEAD\x1b[0m - 0 tests run, idle 9s",
        "  Worker 2: \x1b[33mBUSY\x1b[0m - 1 tests run, idle 0s",
        "",
        "\x1b[31mIssues:\x1b[0m",
        "  - Worker 1 is not alive",
    ];
    assert_eq!(health_report(&h), expected.iter().map(|s| s.to_string()).collect::<Vec<_>>());
}

#[test]
fn run_error_text() {
    let e = ErrorResponse { code: ErrorCode::InternalError, message: "boom".to_string(), details: None };
    assert_eq!(run_error_message(&e), "4: boom");
    let e = ErrorResponse { code: ErrorCode::ConfigError, message: "bad".to_string(), details: None };
    assert_eq!(run_error_message(&e), "0: bad");
}

#[test]
fn time_line_in_seconds_with_three_decimals() {
    assert_eq!(report_time_line(1234), "Time:        1.234 s");
    assert_eq!(report_time_line(5), "Time:        0.005 s");
    assert_eq!(report_time_line(60), "Time:        0.060 s");
    assert_eq!(report_time_line(100000), "Time:        100.000 s");
}
