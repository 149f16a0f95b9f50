use rjest::args::{Args, Command};
use rjest::metrics::{
    record_cache_hit, record_cache_miss, record_request, record_test_file, record_test_results,
    record_transform, snapshot, Metrics, TimingGuard,
};

fn args() -> Args {
    Args {
        patterns: vec!["src".to_string()],
        run_in_band: true,
        watch: false,
        watch_all: true,
        bail: false,
        json: true,
        machine: false,
        verbose: false,
        max_workers: Some(3),
        config: Some("jest.config.js".to_string()),
        only_changed: false,
        find_related_tests: vec!["a.ts".to_string(), "b.ts".to_string()],
        update_snapshots: true,
        coverage: false,
        test_name_pattern: Some("adds".to_string()),
        fallback_to_jest: false,
        daemon_status: false,
        daemon_stop: false,
        daemon_restart: false,
        daemon_health: false,
    }
}

#[test]
fn counters_move_one_at_a_time() {
    let mut m = Metrics::new();
    record_test_file(&mut m, 1500);
    record_test_results(&mut m, 3, 1);
    record_cache_hit(&mut m);
    record_cache_miss(&mut m);
    record_transform(&mut m, 20, true);
    record_transform(&mut m, 30, false);
    record_request(&mut m);
    let s = snapshot(&m);
    assert_eq!(s.total_test_files, 1);
    assert_eq!(s.total_test_time_us, 1500);
    assert_eq!((s.total_tests, s.passed_tests, s.failed_tests), (4, 3, 1));
    assert_eq!((s.cache_hits, s.cache_misses), (2, 2));
    assert_eq!(s.total_transform_time_us, 50);
    assert_eq!(s.requests_handled, 1);
    assert_eq!(s.transform_count(), 4);
}

#[test]
fn counters_wrap_like_atomics() {
    let mut m = Metrics::new();
    m.cache_hits = u64::MAX;
    record_cache_hit(&mut m);
    assert_eq!(m.cache_hits, 0);
}

#[test]
fn timing_guard_measures() {
    let g = TimingGuard::new("discovery");
    let a = g.elapsed_us();
    let b = g.elapsed_us();
    assert!(b >= a);
}

#[test]
fn flags_and_requests() {
    let a = args();
    let f = a.to_run_flags();
    assert!(f.run_in_band && f.watch && f.json_output && !f.machine_output && f.update_snapshots);
    assert_eq!(f.max_workers, Some(3));
    assert_eq!(f.config_path, Some("jest.config.js".to_string()));
    assert_eq!(f.find_related_tests, vec!["a.ts".to_string(), "b.ts".to_string()]);
    assert_eq!(f.test_name_pattern, Some("adds".to_string()));
    let r = a.to_run_request("/home/u/proj".to_string());
    assert_eq!(r.project_root, "/home/u/proj");
    assert_eq!(r.patterns, vec!["src".to_string()]);
}

#[test]
fn commands() {
    let mut a = args();
    assert_eq!(a.command(false), Command::Watch);
    assert_eq!(a.command(true), Command::Fallback);
    a.watch_all = false;
    assert_eq!(a.command(false), Command::Run);
    a.daemon_health = true;
    assert_eq!(a.command(true), Command::DaemonHealth);
    a.daemon_status = true;
    assert_eq!(a.command(false), Command::DaemonStatus);
}

#[test]
fn upstream_arguments() {
    let a = args();
    assert_eq!(
        a.upstream_jest_args(),
        vec![
            "jest", "src", "--runInBand", "--watchAll", "--json", "-u", "--maxWorkers=3",
            "--config=jest.config.js", "--testNamePattern=adds", "--findRelatedTests", "a.ts",
            "--findRelatedTests", "b.ts",
        ]
        .iter()
        .map(|s| s.to_string())
        .collect::<Vec<_>>()
    );
}
