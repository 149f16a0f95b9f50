use rjest::discovery::TestDiscovery;
use rjest::config::{JestConfig, MaxWorkers, ProjectEntry};
use rjest::metrics::MetricsSnapshot;
use rjest::protocol::{
    ErrorCode, Request, Response, RunFlags, RunRequest, RunResponse, TestStatus, WorkerHealth,
};
use rjest::server::{
    aggregate_run, build_health_response, create_worker_config, empty_run_response, fits_run,
    get_max_workers, handle_request, has_projects, health_issues, invalid_request_error,
    is_stale_socket_name, lock_poisoned_error, no_changes_response, only_changed_tests, poll_plan,
    resolve_project_path, resolve_failure_message, run_reply, session_not_found_message,
    split_transforms, status_response, test_selection, validate_project_root, AggregatedResults,
    PollPlan, ProjectTotals, RequestTask, TestSelection,
};
use rjest::transform::TransformResult;
use rjest::worker::{SnapshotSummary, TestFileResult, TestResult};

fn config() -> JestConfig {
    JestConfig {
        root_dir: "/proj".to_string(),
        roots: vec!["/proj".to_string()],
        test_match: vec![],
        test_regex: vec![],
        test_path_ignore_patterns: vec![],
        module_file_extensions: vec!["js".to_string()],
        transform_ignore_patterns: vec![],
        setup_files: vec!["/proj/setup.js".to_string()],
        setup_files_after_env: vec!["/proj/after.js".to_string()],
        test_environment: "node".to_string(),
        collect_coverage: false,
        coverage_directory: "/proj/coverage".to_string(),
        coverage_path_ignore_patterns: vec![],
        coverage_reporters: vec![],
        test_timeout: 7000,
        verbose: false,
        bail: 0,
        max_workers: MaxWorkers::Other,
        projects: None,
        display_name: None,
        clear_mocks: true,
        reset_mocks: false,
        restore_mocks: true,
        patterns: None,
    }
}

fn file(passed: bool, statuses: &[&str], snap: Option<SnapshotSummary>) -> TestFileResult {
    TestFileResult {
        path: "/proj/a.test.js".to_string(),
        passed,
        duration_ms: 5,
        tests: statuses
            .iter()
            .map(|s| TestResult { name: format!("t {}", s), status: s.to_string(), duration_ms: 1, error: None })
            .collect(),
        snapshot_summary: snap,
    }
}

#[test]
fn test_validate_project_root_traversal_attempt() {
    let result = validate_project_root("../etc/passwd");
    assert!(result.is_err());
    let err_msg = result.unwrap_err();
    assert!(err_msg.contains("..") || err_msg.contains("traversal"));
}

#[test]
fn test_validate_project_root_double_traversal() {
    let result = validate_project_root("foo/../../etc/passwd");
    assert!(result.is_err());
}

#[test]
fn test_validate_project_root_windows_traversal() {
    let result = validate_project_root("foo\\..\\..\\etc\\passwd");
    assert!(result.is_err());
}

#[test]
fn validate_project_root_messages() {
    assert_eq!(
        validate_project_root("a/../b"),
        Err("Project root path contains invalid '..' traversal: a/../b".to_string())
    );
    assert_eq!(validate_project_root("/home/user/project"), Ok(()));
    assert_eq!(validate_project_root("/a/.b/c"), Ok(()));
    assert_eq!(
        resolve_failure_message("/x", "No such file or directory"),
        "Failed to resolve project root path '/x': No such file or directory"
    );
}

#[test]
fn max_workers_choice() {
    assert_eq!(get_max_workers(true, Some(8), 3), 1);
    assert_eq!(get_max_workers(false, Some(8), 3), 8);
    assert_eq!(get_max_workers(false, None, 3), 3);
}

#[test]
fn worker_config_from_project() {
    let c = config();
    let w = create_worker_config(&c, true, Some("adds".to_string()));
    assert_eq!(w.root_dir, "/proj");
    assert_eq!(w.setup_files, vec!["/proj/setup.js".to_string()]);
    assert_eq!(w.setup_files_after_env, vec!["/proj/after.js".to_string()]);
    assert_eq!(w.test_timeout, 7000);
    assert!(w.clear_mocks && !w.reset_mocks && w.restore_mocks && w.update_snapshots);
    assert_eq!(w.test_name_pattern, Some("adds".to_string()));
}

#[test]
fn requests_and_replies() {
    assert!(matches!(handle_request(Ok(Request::Ping)), RequestTask::Reply(Response::Pong)));
    assert!(matches!(handle_request(Ok(Request::Shutdown)), RequestTask::Stop));
    assert!(matches!(handle_request(Ok(Request::Status)), RequestTask::Status));
    assert!(matches!(handle_request(Ok(Request::Health)), RequestTask::Health));
    match handle_request(Err("unknown variant `NonExistentRequest`".to_string())) {
        RequestTask::Reply(Response::Error(e)) => {
            assert_eq!(e.code, ErrorCode::InvalidRequest);
            assert_eq!(e.message, "Failed to parse request: unknown variant `NonExistentRequest`");
            assert!(e.details.is_none());
        }
        _ => panic!("expected an error reply"),
    }
    let req = RunRequest { project_root: "/p".to_string(), patterns: vec!["x".to_string()], flags: RunFlags::default() };
    match handle_request(Ok(Request::Run(req))) {
        RequestTask::Run(r) => assert_eq!(r.patterns, vec!["x".to_string()]),
        _ => panic!("expected a run"),
    }
    match run_reply(Err(("boom".to_string(), "details".to_string()))) {
        Response::Error(e) => {
            assert_eq!(e.code, ErrorCode::InternalError);
            assert_eq!(e.message, "boom");
            assert_eq!(e.details, Some("details".to_string()));
        }
        _ => panic!("expected an error"),
    }
    assert!(matches!(run_reply(Ok(empty_run_response(3))), Response::Run(_)));
    let e = invalid_request_error("eof");
    assert_eq!(e.message, "Failed to parse request: eof");
    let e = lock_poisoned_error("Configs", "poisoned");
    assert_eq!(e.message, "Configs lock poisoned: poisoned");
    assert_eq!(e.code, ErrorCode::InternalError);
    assert_eq!(session_not_found_message("abc"), "Watch session not found: abc");
}

#[test]
fn status_reply_counts() {
    let snap = MetricsSnapshot {
        total_test_files: 1,
        total_tests: 2,
        passed_tests: 2,
        failed_tests: 0,
        cache_hits: 3,
        cache_misses: 1,
        requests_handled: 5,
        total_test_time_us: 10,
        total_transform_time_us: 20,
    };
    let s = status_response("0.1.3".to_string(), 42, 2, snap, 99);
    assert_eq!(s.version, "0.1.3");
    assert_eq!(s.uptime_secs, 42);
    assert_eq!(s.projects_count, 2);
    assert_eq!(s.cache_stats.transform_count, 4);
    assert_eq!(s.cache_stats.transform_size_bytes, 0);
    assert_eq!(s.cache_stats.graph_count, 2);
    assert_eq!(s.cache_stats.hits, 3);
    assert_eq!(s.cache_stats.misses, 1);
    assert_eq!(s.worker_stats.total_tests_run, 99);
    assert_eq!(s.worker_stats.active, 0);
}

#[test]
fn health_reply() {
    let w = |id: u32, alive: bool| WorkerHealth { id, alive, busy: false, tests_run: 0, idle_secs: 0 };
    let workers = vec![w(0, true), w(1, false), w(2, true), w(3, false)];
    assert_eq!(
        health_issues(&workers),
        vec!["Worker 1 is not alive".to_string(), "Worker 3 is not alive".to_string()]
    );
    let h = build_health_response("v".to_string(), 1, 2, 3, workers, 4, 5);
    assert!(!h.healthy);
    assert_eq!(h.issues.len(), 2);
    assert_eq!(h.watch_sessions, 4);
    assert_eq!(h.cached_projects, 5);
    let h = build_health_response("v".to_string(), 1, 2, 3, vec![w(0, true)], 0, 0);
    assert!(h.healthy);
    assert!(h.issues.is_empty());
    let h = build_health_response("v".to_string(), 1, 2, 3, vec![], 0, 0);
    assert!(h.healthy);
}

#[test]
fn project_locations() {
    let root = "/repo";
    assert_eq!(
        resolve_project_path(&ProjectEntry::Path("<rootDir>/packages/a".to_string()), root),
        Some("/repo/packages/a".to_string())
    );
    assert_eq!(
        resolve_project_path(&ProjectEntry::Path("packages/b".to_string()), root),
        Some("/repo/packages/b".to_string())
    );
    assert_eq!(
        resolve_project_path(&ProjectEntry::Path("/abs/c".to_string()), root),
        Some("/abs/c".to_string())
    );
    assert_eq!(
        resolve_project_path(&ProjectEntry::Inline(Some("d".to_string())), root),
        Some("/repo/d".to_string())
    );
    assert_eq!(resolve_project_path(&ProjectEntry::Inline(None), root), None);
    assert_eq!(resolve_project_path(&ProjectEntry::Other, root), None);
    let mut c = config();
    assert!(!has_projects(&c));
    c.projects = Some(vec![]);
    assert!(!has_projects(&c));
    c.projects = Some(vec![ProjectEntry::Other]);
    assert!(has_projects(&c));
}

#[test]
fn multi_project_totals() {
    let mut t = ProjectTotals::new();
    let mut a = empty_run_response(1);
    a.num_passed_suites = 2;
    a.num_passed_tests = 5;
    a.snapshot_summary = Some(rjest::protocol::SnapshotSummary {
        added: 1,
        updated: 0,
        removed: 0,
        matched: 2,
        unmatched: 0,
        unchecked: 0,
    });
    t.add_project(a);
    t.add_failed_project();
    let r = t.finish(10);
    assert!(!r.success);
    assert_eq!(r.num_passed_suites, 2);
    assert_eq!(r.num_failed_suites, 1);
    assert_eq!(r.num_passed_tests, 5);
    assert_eq!(r.duration_ms, 10);
    let s = r.snapshot_summary.unwrap();
    assert_eq!((s.added, s.matched, s.removed, s.unchecked), (1, 2, 0, 0));
    let r = ProjectTotals::new().finish(0);
    assert!(r.success);
    assert!(r.snapshot_summary.is_none());
}

#[test]
fn selection_and_changed_tests() {
    let mut flags = RunFlags::default();
    assert!(matches!(test_selection(&flags), TestSelection::Matching));
    flags.only_changed = true;
    assert!(matches!(test_selection(&flags), TestSelection::OnlyChanged));
    flags.find_related_tests = vec!["src/a.ts".to_string()];
    match test_selection(&flags) {
        TestSelection::Related(v) => assert_eq!(v, vec!["src/a.ts".to_string()]),
        _ => panic!("expected related"),
    }
    let tests = vec!["/p/src/a.test.ts".to_string(), "/p/lib/b.test.ts".to_string()];
    assert!(only_changed_tests(&[], &tests).is_empty());
    assert_eq!(only_changed_tests(&["/p/src/a.ts".to_string()], &tests), vec!["/p/src/a.test.ts".to_string()]);
}

#[test]
fn watch_poll_plans() {
    let tests = vec!["/p/src/a.test.ts".to_string(), "/p/lib/b.test.ts".to_string()];
    assert!(matches!(poll_plan(&[], &tests), PollPlan::NoChanges));
    match poll_plan(&["/p/src/a.ts".to_string()], &tests) {
        PollPlan::RunAffected(v) => assert_eq!(v, vec!["/p/src/a.test.ts".to_string()]),
        _ => panic!("expected a run"),
    }
    assert!(matches!(poll_plan(&["/p/src/a.ts".to_string()], &[]), PollPlan::ChangedOnly));
    let r = no_changes_response();
    assert!(!r.has_changes && r.run_result.is_none() && r.changed_files.is_empty());
}

#[test]
fn whole_run_tally() {
    let results: Vec<Result<TestFileResult, String>> = vec![
        Ok(file(true, &["passed", "passed", "skipped"], None)),
        Err("Worker error: boom".to_string()),
        Ok(file(false, &["failed", "todo", "weird"], Some(SnapshotSummary { added: 1, updated: 2, matched: 3, unmatched: 4 }))),
    ];
    let errors = vec![("/proj/b.test.ts".to_string(), "Transform failed: syntax".to_string())];
    assert!(fits_run(&results, &errors));
    let agg = aggregate_run(results, errors);
    assert_eq!(agg.num_passed_suites, 1);
    assert_eq!(agg.num_failed_suites, 3);
    assert_eq!(agg.num_passed_tests, 2);
    assert_eq!(agg.num_failed_tests, 1);
    assert_eq!(agg.num_skipped_tests, 1);
    assert_eq!(agg.num_todo_tests, 1);
    assert_eq!((agg.snap_added, agg.snap_updated, agg.snap_matched, agg.snap_unmatched), (1, 2, 3, 4));
    assert_eq!(agg.test_results.len(), 3);
    assert_eq!(agg.test_results[1].tests[2].status, TestStatus::Failed);
    assert_eq!(agg.test_results[2].path, "/proj/b.test.ts");
    assert_eq!(agg.tests_counted(), 5);
    let r = agg.into_run_response(12);
    assert!(!r.success);
    assert_eq!(r.duration_ms, 12);
    assert_eq!(r.snapshot_summary.unwrap().unmatched, 4);
}

#[test]
fn empty_run_is_success() {
    let r: RunResponse = empty_run_response(7);
    assert!(r.success);
    assert_eq!(r.duration_ms, 7);
    assert!(r.test_results.is_empty());
    let r = AggregatedResults::new().into_run_response(1);
    assert!(r.success);
}

#[test]
fn transform_split() {
    let ok = TransformResult {
        code: "x".to_string(),
        source_map: None,
        original_path: "/a.ts".to_string(),
        source_hash: "h".to_string(),
    };
    let paths = vec!["/a.ts".to_string(), "/b.ts".to_string()];
    let (t, e) = split_transforms(vec![Ok(ok), Err("Parse error".to_string())], &paths);
    assert_eq!(t.len(), 1);
    assert_eq!(e, vec![("/b.ts".to_string(), "Transform failed: Parse error".to_string())]);
}

#[test]
fn stale_sockets() {
    assert!(is_stale_socket_name("rjest-1000.sock"));
    assert!(!is_stale_socket_name("rjest-1000.sock.bak"));
    assert!(!is_stale_socket_name("other.sock"));
}

#[test]
fn test_validate_project_root_valid_path() {
    // Valid path should work (using a temp directory)
    let temp_dir = tempfile::TempDir::new().unwrap();
    let root = temp_dir.path().to_str().unwrap();
    let result = validate_project_root(root);
    assert!(result.is_ok());
    assert!(std::path::Path::new(root).canonicalize().unwrap().exists());
}

#[test]
fn config_hash_follows_discovery_fields() {
    let base = TestDiscovery::new(config()).config_hash;
    assert_eq!(TestDiscovery::new(config()).config_hash, base);
    let mut other_env = config();
    other_env.test_environment = "jsdom".to_string();
    assert_eq!(TestDiscovery::new(other_env).config_hash, base);
    let mut more_ext = config();
    more_ext.module_file_extensions.push("ts".to_string());
    assert_ne!(TestDiscovery::new(more_ext).config_hash, base);
    let mut other_match = config();
    other_match.test_match.push("**/*.spec.js".to_string());
    assert_ne!(TestDiscovery::new(other_match).config_hash, base);
}

#[test]
fn test_ping_pong() {
    // A ping is answered with a pong.
    assert!(matches!(handle_request(Ok(Request::Ping)), RequestTask::Reply(Response::Pong)));
}

#[test]
fn test_shutdown() {
    // A shutdown stops serving and is answered that the daemon is shutting down.
    assert!(matches!(handle_request(Ok(Request::Shutdown)), RequestTask::Stop));
}

#[test]
fn test_status_request() {
    assert!(matches!(handle_request(Ok(Request::Status)), RequestTask::Status));
    let snap = MetricsSnapshot {
        total_test_files: 0,
        total_tests: 0,
        passed_tests: 0,
        failed_tests: 0,
        cache_hits: 0,
        cache_misses: 0,
        requests_handled: 1,
        total_test_time_us: 0,
        total_transform_time_us: 0,
    };
    let status = status_response("0.1.3".to_string(), 7, 0, snap, 0);
    assert_eq!(status.version, "0.1.3");
    assert_eq!(status.uptime_secs, 7);
    assert_eq!(status.projects_count, 0);
    assert_eq!(status.worker_stats.total_tests_run, 0);
}

#[test]
fn test_health_request() {
    assert!(matches!(handle_request(Ok(Request::Health)), RequestTask::Health));
    let health = build_health_response("0.1.3".to_string(), 7, 10, 1024, vec![], 0, 0);
    assert!(health.healthy);
    assert_eq!(health.version, "0.1.3");
    assert_eq!(health.uptime_secs, 7);
    assert!(health.workers.is_empty());
}

#[test]
fn test_invalid_request_returns_error() {
    // A request of an unknown type cannot be read and is answered with an error.
    match handle_request(Err("unknown variant `NonExistentRequest`".to_string())) {
        RequestTask::Reply(Response::Error(e)) => {
            assert_eq!(e.code, ErrorCode::InvalidRequest);
            assert!(!e.message.is_empty());
        }
        _ => panic!("expected an error reply"),
    }
}

#[test]
fn test_run_with_empty_patterns() {
    let mut flags = RunFlags::default();
    flags.run_in_band = true;
    let req = RunRequest { project_root: "/fixtures/simple".to_string(), patterns: vec![], flags };
    match handle_request(Ok(Request::Run(req))) {
        RequestTask::Run(r) => {
            assert!(r.patterns.is_empty());
            assert!(r.flags.run_in_band);
        }
        _ => panic!("expected a run"),
    }
    // Whatever the run gives, it is answered as a run.
    assert!(matches!(run_reply(Ok(empty_run_response(0))), Response::Run(_)));
}
