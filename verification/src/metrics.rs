//! Counters the daemon keeps about its work: tests run, transform cache
//! hits and misses, requests, and time spent.

use vstd::prelude::*;
use std::time::{Duration, Instant};

verus! {

/// Daemon metrics
pub struct Metrics {
    /// Total test files executed
    pub total_test_files: u64,
    /// Total individual tests executed
    pub total_tests: u64,
    /// Total passed tests
    pub passed_tests: u64,
    /// Total failed tests
    pub failed_tests: u64,
    /// Transform cache hits
    pub cache_hits: u64,
    /// Transform cache misses
    pub cache_misses: u64,
    /// Total requests handled
    pub requests_handled: u64,
    /// Total time spent in test execution (microseconds)
    pub total_test_time_us: u64,
    /// Total time spent in transforms (microseconds)
    pub total_transform_time_us: u64,
}

/// Snapshot of metrics at a point in time
#[derive(Debug, Clone, Copy, PartialEq, Eq, Structural)]
pub struct MetricsSnapshot {
    pub total_test_files: u64,
    pub total_tests: u64,
    pub passed_tests: u64,
    pub failed_tests: u64,
    pub cache_hits: u64,
    pub cache_misses: u64,
    pub requests_handled: u64,
    pub total_test_time_us: u64,
    pub total_transform_time_us: u64,
}

/// A counter after adding `x`, wrapping around at 2^64 as an atomic
/// `fetch_add` does.
pub open spec fn bump(c: u64, x: u64) -> u64 {
    ((c as int + x as int) % 0x1_0000_0000_0000_0000) as u64
}

/// The snapshot that a set of counters reads as.
pub open spec fn snapshot_of(m: Metrics) -> MetricsSnapshot {
    MetricsSnapshot {
        total_test_files: m.total_test_files,
        total_tests: m.total_tests,
        passed_tests: m.passed_tests,
        failed_tests: m.failed_tests,
        cache_hits: m.cache_hits,
        cache_misses: m.cache_misses,
        requests_handled: m.requests_handled,
        total_test_time_us: m.total_test_time_us,
        total_transform_time_us: m.total_transform_time_us,
    }
}

/// All counters of `a` and `b` agree except those `changed` names.
pub open spec fn same_except(a: Metrics, b: Metrics, changed: Set<int>) -> bool {
    &&& (!changed.contains(0) ==> a.total_test_files == b.total_test_files)
    &&& (!changed.contains(1) ==> a.total_tests == b.total_tests)
    &&& (!changed.contains(2) ==> a.passed_tests == b.passed_tests)
    &&& (!changed.contains(3) ==> a.failed_tests == b.failed_tests)
    &&& (!changed.contains(4) ==> a.cache_hits == b.cache_hits)
    &&& (!changed.contains(5) ==> a.cache_misses == b.cache_misses)
    &&& (!changed.contains(6) ==> a.requests_handled == b.requests_handled)
    &&& (!changed.contains(7) ==> a.total_test_time_us == b.total_test_time_us)
    &&& (!changed.contains(8) ==> a.total_transform_time_us == b.total_transform_time_us)
}

impl Metrics {
    /// All counters at zero.
    pub fn new() -> (r: Self)
        ensures
            snapshot_of(r) == (MetricsSnapshot {
                total_test_files: 0,
                total_tests: 0,
                passed_tests: 0,
                failed_tests: 0,
                cache_hits: 0,
                cache_misses: 0,
                requests_handled: 0,
                total_test_time_us: 0,
                total_transform_time_us: 0,
            }),
    {
        Self {
            total_test_files: 0,
            total_tests: 0,
            passed_tests: 0,
            failed_tests: 0,
            cache_hits: 0,
            cache_misses: 0,
            requests_handled: 0,
            total_test_time_us: 0,
            total_transform_time_us: 0,
        }
    }

    /// Get a snapshot of current metrics
    pub fn snapshot(&self) -> (r: MetricsSnapshot)
        ensures
            r == snapshot_of(*self),
    {
        MetricsSnapshot {
            total_test_files: self.total_test_files,
            total_tests: self.total_tests,
            passed_tests: self.passed_tests,
            failed_tests: self.failed_tests,
            cache_hits: self.cache_hits,
            cache_misses: self.cache_misses,
            requests_handled: self.requests_handled,
            total_test_time_us: self.total_test_time_us,
            total_transform_time_us: self.total_transform_time_us,
        }
    }
}

impl MetricsSnapshot {
    /// Get total number of transforms (cache hits + misses)
    pub fn transform_count(&self) -> (r: u64)
        requires
            self.cache_hits + self.cache_misses <= u64::MAX,
        ensures
            r == self.cache_hits + self.cache_misses,
    {
        self.cache_hits + self.cache_misses
    }
}

/// Record a test file execution
pub fn record_test_file(m: &mut Metrics, duration_us: u64)
    ensures
        final(m).total_test_files == bump(old(m).total_test_files, 1),
        final(m).total_test_time_us == bump(old(m).total_test_time_us, duration_us),
        same_except(*final(m), *old(m), set![0, 7]),
{
    m.total_test_files = m.total_test_files.wrapping_add(1);
    m.total_test_time_us = m.total_test_time_us.wrapping_add(duration_us);
}

/// Record individual test results
pub fn record_test_results(m: &mut Metrics, passed: u64, failed: u64)
    requires
        passed + failed <= u64::MAX,
    ensures
        final(m).total_tests == bump(old(m).total_tests, (passed + failed) as u64),
        final(m).passed_tests == bump(old(m).passed_tests, passed),
        final(m).failed_tests == bump(old(m).failed_tests, failed),
        same_except(*final(m), *old(m), set![1, 2, 3]),
{
    m.total_tests = m.total_tests.wrapping_add(passed + failed);
    m.passed_tests = m.passed_tests.wrapping_add(passed);
    m.failed_tests = m.failed_tests.wrapping_add(failed);
}

/// Record a transform cache hit
pub fn record_cache_hit(m: &mut Metrics)
    ensures
        final(m).cache_hits == bump(old(m).cache_hits, 1),
        same_except(*final(m), *old(m), set![4]),
{
    m.cache_hits = m.cache_hits.wrapping_add(1);
}

/// Record a transform cache miss
pub fn record_cache_miss(m: &mut Metrics)
    ensures
        final(m).cache_misses == bump(old(m).cache_misses, 1),
        same_except(*final(m), *old(m), set![5]),
{
    m.cache_misses = m.cache_misses.wrapping_add(1);
}

/// The counters after a transform that took `duration_us` and hit or
/// missed the cache.
pub open spec fn transform_recorded(m: Metrics, duration_us: u64, hit: bool) -> Metrics {
    Metrics {
        total_transform_time_us: bump(m.total_transform_time_us, duration_us),
        cache_hits: if hit { bump(m.cache_hits, 1) } else { m.cache_hits },
        cache_misses: if hit { m.cache_misses } else { bump(m.cache_misses, 1) },
        ..m
    }
}

/// Each transform is counted once: after one is recorded, the transform
/// count of a snapshot has grown by one (until the counters wrap around).
pub proof fn law_transform_counted(m: Metrics, duration_us: u64, hit: bool)
    requires
        m.cache_hits + m.cache_misses + 1 <= u64::MAX,
    ensures
        snapshot_of(transform_recorded(m, duration_us, hit)).cache_hits + snapshot_of(
            transform_recorded(m, duration_us, hit),
        ).cache_misses == snapshot_of(m).cache_hits + snapshot_of(m).cache_misses + 1,
{
    assert(bump(m.cache_hits, 1) == m.cache_hits + 1);
    assert(bump(m.cache_misses, 1) == m.cache_misses + 1);
}

/// Record a transform operation: its time, and a hit or a miss.
pub fn record_transform(m: &mut Metrics, duration_us: u64, hit: bool)
    ensures
        *final(m) == transform_recorded(*old(m), duration_us, hit),
        final(m).total_transform_time_us == bump(old(m).total_transform_time_us, duration_us),
        final(m).cache_hits == if hit { bump(old(m).cache_hits, 1) } else { old(m).cache_hits },
        final(m).cache_misses == if hit { old(m).cache_misses } else { bump(old(m).cache_misses, 1) },
        same_except(*final(m), *old(m), set![4, 5, 8]),
{
    m.total_transform_time_us = m.total_transform_time_us.wrapping_add(duration_us);
    if hit {
        m.cache_hits = m.cache_hits.wrapping_add(1);
    } else {
        m.cache_misses = m.cache_misses.wrapping_add(1);
    }
}

/// Record a request handled
pub fn record_request(m: &mut Metrics)
    ensures
        final(m).requests_handled == bump(old(m).requests_handled, 1),
        same_except(*final(m), *old(m), set![6]),
{
    m.requests_handled = m.requests_handled.wrapping_add(1);
}

/// Get a metrics snapshot
pub fn snapshot(m: &Metrics) -> (r: MetricsSnapshot)
    ensures
        r == snapshot_of(*m),
{
    m.snapshot()
}

/// A point in time, as `std::time::Instant` keeps it.
#[verifier::external_type_specification]
#[verifier::external_body]
pub struct ExInstant(Instant);

/// `Instant::now`. Nothing is claimed of the instant it gives.
#[verifier::external_body]
fn now() -> Instant {
    Instant::now()
}

/// `Instant::elapsed`: the time since `start`. Nothing is claimed of it:
/// it depends on the clock.
#[verifier::external_body]
fn elapsed_since(start: &Instant) -> Duration {
    start.elapsed()
}

/// `Duration::as_micros`: the whole microseconds of a duration. Nothing is
/// claimed of the value, a duration being opaque here.
#[verifier::external_body]
fn whole_micros(d: &Duration) -> u128 {
    d.as_micros()
}

/// RAII guard for timing operations
pub struct TimingGuard {
    start: Instant,
    name: &'static str,
}

impl TimingGuard {
    /// A guard named `name`, started now.
    pub fn new(name: &'static str) -> (r: Self)
        ensures
            r.name() == name,
    {
        Self { start: now(), name }
    }

    pub closed spec fn name(&self) -> &'static str {
        self.name
    }

    /// The microseconds since the guard started, kept to the low 64 bits.
    pub fn elapsed_us(&self) -> u64 {
        let d = elapsed_since(&self.start);
        let us = whole_micros(&d);
        us as u64
    }
}

} // verus!
