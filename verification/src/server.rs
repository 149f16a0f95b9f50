//! What the daemon computes while it answers requests: the tally of a test
//! run, the responses it sends, and the checks on what a request asks for.

use vstd::prelude::*;
use crate::protocol::{
    CacheStats, ErrorCode, ErrorResponse, HealthResponse, Request, Response, RunFlags, RunRequest,
    RunResponse, SnapshotSummary, StatusResponse, WatchPollRequest, WatchStartRequest,
    WatchStartedResponse, WatchStopRequest, WorkerStats,
    TestError as ProtoTestError, TestFileResult as ProtoTestFileResult,
    TestResult as ProtoTestResult, TestStatus, WatchPollResponse, WorkerHealth,
};
use crate::worker;
use crate::text::{
    chars_of, contains, contains_exec, copy_strings, decimal, occurs_at, push_decimal, push_str,
    replace_all, replace_all_exec, starts_with, str_equal, string_from_chars, ends_with,
    ends_with_exec, starts_with_exec,
};
use crate::config::{JestConfig, ProjectEntry};
use crate::metrics::MetricsSnapshot;
use crate::transform::TransformResult;
use crate::paths::{is_absolute_path, join, join_path, sorted_dedup_of};
use crate::git::{find_related_test_files, is_related_test};
use crate::watch::{affected_tests_of, get_affected_tests};

verus! {

/// How a worker's status string reads: the four known statuses map to
/// themselves, anything else counts as failed.
pub open spec fn status_of(s: Seq<char>) -> TestStatus {
    if s == "passed"@ {
        TestStatus::Passed
    } else if s == "failed"@ {
        TestStatus::Failed
    } else if s == "skipped"@ {
        TestStatus::Skipped
    } else if s == "todo"@ {
        TestStatus::Todo
    } else {
        TestStatus::Failed
    }
}

/// The number of tests of `tests` whose status string is `st`.
pub open spec fn count_status(tests: Seq<worker::TestResult>, st: Seq<char>) -> nat
    decreases tests.len(),
{
    if tests.len() == 0 {
        0
    } else {
        count_status(tests.drop_last(), st) + if tests.last().status@ == st {
            1nat
        } else {
            0nat
        }
    }
}

/// A protocol test result carries what a worker's test result says.
pub open spec fn test_converted(p: ProtoTestResult, w: worker::TestResult) -> bool {
    &&& p.name == w.name
    &&& p.status == status_of(w.status@)
    &&& p.duration_ms == w.duration_ms
    &&& match (p.error, w.error) {
        (None, None) => true,
        (Some(pe), Some(we)) => pe.message == we.message && pe.stack == we.stack && pe.diff
            == we.diff && pe.location is None,
        _ => false,
    }
}

/// A protocol file result carries what a worker's file result says.
pub open spec fn file_converted(p: ProtoTestFileResult, w: worker::TestFileResult) -> bool {
    &&& p.path == w.path
    &&& p.passed == w.passed
    &&& p.duration_ms == w.duration_ms
    &&& p.console_output is None
    &&& p.tests@.len() == w.tests@.len()
    &&& forall|k: int| 0 <= k < p.tests@.len() ==> test_converted(#[trigger] p.tests@[k], w.tests@[k])
}

/// Aggregated test result data
pub struct AggregatedResults {
    pub test_results: Vec<ProtoTestFileResult>,
    pub num_passed_suites: u32,
    pub num_failed_suites: u32,
    pub num_passed_tests: u32,
    pub num_failed_tests: u32,
    pub num_skipped_tests: u32,
    pub num_todo_tests: u32,
    pub snap_added: u32,
    pub snap_updated: u32,
    pub snap_matched: u32,
    pub snap_unmatched: u32,
}

/// The snapshot counts of a file result, zero when it has none.
pub open spec fn snap_of(w: worker::TestFileResult) -> (nat, nat, nat, nat) {
    match w.snapshot_summary {
        Some(s) => (s.added as nat, s.updated as nat, s.matched as nat, s.unmatched as nat),
        None => (0, 0, 0, 0),
    }
}

fn convert_test(t: worker::TestResult) -> (r: ProtoTestResult)
    ensures
        test_converted(r, t),
{
    let status = if str_equal(t.status.as_str(), "passed") {
        TestStatus::Passed
    } else if str_equal(t.status.as_str(), "failed") {
        TestStatus::Failed
    } else if str_equal(t.status.as_str(), "skipped") {
        TestStatus::Skipped
    } else if str_equal(t.status.as_str(), "todo") {
        TestStatus::Todo
    } else {
        TestStatus::Failed
    };
    let error = match t.error {
        Some(e) => Some(ProtoTestError { message: e.message, stack: e.stack, diff: e.diff, location: None }),
        None => None,
    };
    ProtoTestResult { name: t.name, status, duration_ms: t.duration_ms, error }
}

impl AggregatedResults {
    pub fn new() -> (r: Self)
        ensures
            r.test_results@.len() == 0,
            r.num_passed_suites == 0 && r.num_failed_suites == 0,
            r.num_passed_tests == 0 && r.num_failed_tests == 0,
            r.num_skipped_tests == 0 && r.num_todo_tests == 0,
            r.snap_added == 0 && r.snap_updated == 0 && r.snap_matched == 0 && r.snap_unmatched == 0,
            tally_empty(r),
    {
        Self {
            test_results: Vec::new(),
            num_passed_suites: 0,
            num_failed_suites: 0,
            num_passed_tests: 0,
            num_failed_tests: 0,
            num_skipped_tests: 0,
            num_todo_tests: 0,
            snap_added: 0,
            snap_updated: 0,
            snap_matched: 0,
            snap_unmatched: 0,
        }
    }

    /// Adds a test file result: it counts as a passed or failed suite, its
    /// tests count by their status (an unknown status counts as failed in
    /// the result but in no counter), its snapshot counts add up, and it
    /// joins the results converted to the protocol's form.
    #[verifier::rlimit(30)]
    pub fn add_file_result(&mut self, file_result: worker::TestFileResult)
        requires
            old(self).num_passed_suites + 1 <= u32::MAX,
            old(self).num_failed_suites + 1 <= u32::MAX,
            old(self).num_passed_tests + count_status(file_result.tests@, "passed"@) <= u32::MAX,
            old(self).num_failed_tests + count_status(file_result.tests@, "failed"@) <= u32::MAX,
            old(self).num_skipped_tests + count_status(file_result.tests@, "skipped"@) <= u32::MAX,
            old(self).num_todo_tests + count_status(file_result.tests@, "todo"@) <= u32::MAX,
            old(self).snap_added + snap_of(file_result).0 <= u32::MAX,
            old(self).snap_updated + snap_of(file_result).1 <= u32::MAX,
            old(self).snap_matched + snap_of(file_result).2 <= u32::MAX,
            old(self).snap_unmatched + snap_of(file_result).3 <= u32::MAX,
        ensures
            final(self).num_passed_suites == old(self).num_passed_suites + if file_result.passed { 1int } else { 0int },
            final(self).num_failed_suites == old(self).num_failed_suites + if file_result.passed { 0int } else { 1int },
            final(self).num_passed_tests == old(self).num_passed_tests + count_status(file_result.tests@, "passed"@),
            final(self).num_failed_tests == old(self).num_failed_tests + count_status(file_result.tests@, "failed"@),
            final(self).num_skipped_tests == old(self).num_skipped_tests + count_status(file_result.tests@, "skipped"@),
            final(self).num_todo_tests == old(self).num_todo_tests + count_status(file_result.tests@, "todo"@),
            final(self).snap_added == old(self).snap_added + snap_of(file_result).0,
            final(self).snap_updated == old(self).snap_updated + snap_of(file_result).1,
            final(self).snap_matched == old(self).snap_matched + snap_of(file_result).2,
            final(self).snap_unmatched == old(self).snap_unmatched + snap_of(file_result).3,
            final(self).test_results@.len() == old(self).test_results@.len() + 1,
            final(self).test_results@.drop_last() == old(self).test_results@,
            file_converted(final(self).test_results@.last(), file_result),
            file_added(*old(self), *final(self), file_result),
    {
        if file_result.passed {
            self.num_passed_suites = self.num_passed_suites + 1;
        } else {
            self.num_failed_suites = self.num_failed_suites + 1;
        }
        match &file_result.snapshot_summary {
            Some(snap) => {
                self.snap_added = self.snap_added + snap.added;
                self.snap_updated = self.snap_updated + snap.updated;
                self.snap_matched = self.snap_matched + snap.matched;
                self.snap_unmatched = self.snap_unmatched + snap.unmatched;
            },
            None => {},
        }
        let ghost orig = file_result;
        let ghost all = file_result.tests@;
        let ghost p0 = self.num_passed_tests;
        let ghost f0 = self.num_failed_tests;
        let ghost s0 = self.num_skipped_tests;
        let ghost t0 = self.num_todo_tests;
        let ghost ps = self.num_passed_suites;
        let ghost fs = self.num_failed_suites;
        let ghost sa = self.snap_added;
        let ghost su = self.snap_updated;
        let ghost sm = self.snap_matched;
        let ghost sx = self.snap_unmatched;
        let ghost tr = self.test_results@;
        let worker::TestFileResult { path, passed, duration_ms, tests, snapshot_summary: _ } = file_result;
        let mut rest = tests;
        let mut converted: Vec<ProtoTestResult> = Vec::new();
        let mut k: usize = 0;
        assert(all.take(0) =~= Seq::<worker::TestResult>::empty());
        assert(all.skip(0) =~= all);
        assert(all.len() == rest.len());
        while rest.len() > 0
            invariant
                k <= all.len(),
                all.len() <= usize::MAX,
                rest@ == all.skip(k as int),
                converted@.len() == k,
                forall|m: int| 0 <= m < k ==> test_converted(#[trigger] converted@[m], all[m]),
                self.num_passed_tests == p0 + count_status(all.take(k as int), "passed"@),
                self.num_failed_tests == f0 + count_status(all.take(k as int), "failed"@),
                self.num_skipped_tests == s0 + count_status(all.take(k as int), "skipped"@),
                self.num_todo_tests == t0 + count_status(all.take(k as int), "todo"@),
                p0 + count_status(all, "passed"@) <= u32::MAX,
                f0 + count_status(all, "failed"@) <= u32::MAX,
                s0 + count_status(all, "skipped"@) <= u32::MAX,
                t0 + count_status(all, "todo"@) <= u32::MAX,
                self.num_passed_suites == ps,
                self.num_failed_suites == fs,
                self.snap_added == sa,
                self.snap_updated == su,
                self.snap_matched == sm,
                self.snap_unmatched == sx,
                self.test_results@ == tr,
            decreases rest@.len(),
        {
            let t = rest.remove(0);
            assert(t == all[k as int]);
            assert(all.take(k + 1).drop_last() =~= all.take(k as int));
            assert(all.take(k + 1).last() == t);
            proof {
                lemma_statuses_distinct();
                lemma_count_monotone(all, k as int + 1, "passed"@);
                lemma_count_monotone(all, k as int + 1, "failed"@);
                lemma_count_monotone(all, k as int + 1, "skipped"@);
                lemma_count_monotone(all, k as int + 1, "todo"@);
                lemma_count_prefix(all, k as int + 1, "passed"@);
                lemma_count_prefix(all, k as int + 1, "failed"@);
                lemma_count_prefix(all, k as int + 1, "skipped"@);
                lemma_count_prefix(all, k as int + 1, "todo"@);
            }
            let is_p = str_equal(t.status.as_str(), "passed");
            let is_f = str_equal(t.status.as_str(), "failed");
            let is_s = str_equal(t.status.as_str(), "skipped");
            let is_t = str_equal(t.status.as_str(), "todo");
            assert(!(is_p && is_f) && !(is_p && is_s) && !(is_p && is_t) && !(is_f && is_s) && !(is_f && is_t) && !(is_s && is_t));
            if is_p {
                self.num_passed_tests = self.num_passed_tests + 1;
            } else if is_f {
                self.num_failed_tests = self.num_failed_tests + 1;
            } else if is_s {
                self.num_skipped_tests = self.num_skipped_tests + 1;
            } else if is_t {
                self.num_todo_tests = self.num_todo_tests + 1;
            }
            converted.push(convert_test(t));
            k = k + 1;
            assert(rest@ =~= all.skip(k as int));
        }
        assert(all.take(k as int) =~= all);
        let ghost before = self.test_results@;
        self.test_results.push(ProtoTestFileResult {
            path,
            passed,
            duration_ms,
            tests: converted,
            console_output: None,
        });
        assert(self.test_results@.drop_last() =~= before);
    }

    /// Adds a file that failed to transform: a failed suite whose one
    /// test, `transform`, failed with the given message.
    pub fn add_transform_error(&mut self, path: String, error_msg: String)
        requires
            old(self).num_failed_suites + 1 <= u32::MAX,
        ensures
            final(self).num_failed_suites == old(self).num_failed_suites + 1,
            final(self).num_passed_suites == old(self).num_passed_suites,
            final(self).num_passed_tests == old(self).num_passed_tests,
            final(self).num_failed_tests == old(self).num_failed_tests,
            final(self).num_skipped_tests == old(self).num_skipped_tests,
            final(self).num_todo_tests == old(self).num_todo_tests,
            final(self).snap_added == old(self).snap_added,
            final(self).snap_updated == old(self).snap_updated,
            final(self).snap_matched == old(self).snap_matched,
            final(self).snap_unmatched == old(self).snap_unmatched,
            final(self).test_results@.drop_last() == old(self).test_results@,
            final(self).test_results@.len() == old(self).test_results@.len() + 1,
            ({
                let r = final(self).test_results@.last();
                &&& r.path == path
                &&& !r.passed
                &&& r.duration_ms == 0
                &&& r.console_output is None
                &&& r.tests@.len() == 1
                &&& r.tests@[0].name@ == "transform"@
                &&& r.tests@[0].status == TestStatus::Failed
                &&& r.tests@[0].duration_ms == 0
                &&& r.tests@[0].error == Some(ProtoTestError { message: error_msg, stack: None, diff: None, location: None })
            }),
            transform_error_added(*old(self), *final(self), path),
    {
        self.num_failed_suites = self.num_failed_suites + 1;
        let name = String::from_str("transform");
        let mut tests: Vec<ProtoTestResult> = Vec::new();
        tests.push(ProtoTestResult {
            name,
            status: TestStatus::Failed,
            duration_ms: 0,
            error: Some(ProtoTestError { message: error_msg, stack: None, diff: None, location: None }),
        });
        let ghost before = self.test_results@;
        self.test_results.push(ProtoTestFileResult {
            path,
            passed: false,
            duration_ms: 0,
            tests,
            console_output: None,
        });
        assert(self.test_results@.drop_last() =~= before);
    }

    /// The snapshot summary, present when any snapshot was added, updated,
    /// matched or unmatched; removed and unchecked snapshots are not
    /// tracked and read zero.
    pub fn build_snapshot_summary(&self) -> (r: Option<SnapshotSummary>)
        ensures
            r == if self.snap_added > 0 || self.snap_updated > 0 || self.snap_matched > 0
                || self.snap_unmatched > 0 {
                Some(
                    SnapshotSummary {
                        added: self.snap_added,
                        updated: self.snap_updated,
                        removed: 0,
                        matched: self.snap_matched,
                        unmatched: self.snap_unmatched,
                        unchecked: 0,
                    },
                )
            } else {
                None
            },
    {
        if self.snap_added > 0 || self.snap_updated > 0 || self.snap_matched > 0 || self.snap_unmatched > 0 {
            Some(
                SnapshotSummary {
                    added: self.snap_added,
                    updated: self.snap_updated,
                    removed: 0,
                    matched: self.snap_matched,
                    unmatched: self.snap_unmatched,
                    unchecked: 0,
                },
            )
        } else {
            None
        }
    }

    /// Check if all tests passed
    pub fn success(&self) -> (r: bool)
        ensures
            r == (self.num_failed_tests == 0 && self.num_failed_suites == 0),
    {
        self.num_failed_tests == 0 && self.num_failed_suites == 0
    }
}

/// The number of tests among `tests` with status `st`.
pub open spec fn count_tests_with(tests: Seq<ProtoTestResult>, st: TestStatus) -> nat
    decreases tests.len(),
{
    if tests.len() == 0 {
        0
    } else {
        count_tests_with(tests.drop_last(), st) + if tests.last().status == st {
            1nat
        } else {
            0nat
        }
    }
}

/// The number of tests with status `st` over all files of `files`.
pub open spec fn count_results_with(files: Seq<ProtoTestFileResult>, st: TestStatus) -> nat
    decreases files.len(),
{
    if files.len() == 0 {
        0
    } else {
        count_results_with(files.drop_last(), st) + count_tests_with(files.last().tests@, st)
    }
}

/// The number of files of `files` that passed.
pub open spec fn passed_suites_of(files: Seq<ProtoTestFileResult>) -> nat
    decreases files.len(),
{
    if files.len() == 0 {
        0
    } else {
        passed_suites_of(files.drop_last()) + if files.last().passed {
            1nat
        } else {
            0nat
        }
    }
}

/// The counters of a tally agree with its file results: every file is a
/// passed or a failed suite; passed, skipped and todo tests are counted
/// exactly; failed tests are counted at most as often as tests show as
/// failed (a test with an unknown status, or a failed transform, shows as
/// failed but is counted in no counter).
pub open spec fn tally_consistent(a: AggregatedResults) -> bool {
    &&& a.num_passed_suites + a.num_failed_suites == a.test_results@.len()
    &&& a.num_passed_suites == passed_suites_of(a.test_results@)
    &&& a.num_passed_tests == count_results_with(a.test_results@, TestStatus::Passed)
    &&& a.num_skipped_tests == count_results_with(a.test_results@, TestStatus::Skipped)
    &&& a.num_todo_tests == count_results_with(a.test_results@, TestStatus::Todo)
    &&& a.num_failed_tests <= count_results_with(a.test_results@, TestStatus::Failed)
}

/// `a` is a tally with nothing in it yet, as `AggregatedResults::new`
/// gives.
pub open spec fn tally_empty(a: AggregatedResults) -> bool {
    &&& a.test_results@.len() == 0
    &&& a.num_passed_suites == 0 && a.num_failed_suites == 0
    &&& a.num_passed_tests == 0 && a.num_failed_tests == 0
    &&& a.num_skipped_tests == 0 && a.num_todo_tests == 0
}

/// `b` is `a` after `add_file_result` with `f`, as far as the counters of
/// tests and suites and the file results go.
pub open spec fn file_added(a: AggregatedResults, b: AggregatedResults, f: worker::TestFileResult) -> bool {
    &&& b.num_passed_suites == a.num_passed_suites + if f.passed { 1int } else { 0int }
    &&& b.num_failed_suites == a.num_failed_suites + if f.passed { 0int } else { 1int }
    &&& b.num_passed_tests == a.num_passed_tests + count_status(f.tests@, "passed"@)
    &&& b.num_failed_tests == a.num_failed_tests + count_status(f.tests@, "failed"@)
    &&& b.num_skipped_tests == a.num_skipped_tests + count_status(f.tests@, "skipped"@)
    &&& b.num_todo_tests == a.num_todo_tests + count_status(f.tests@, "todo"@)
    &&& b.test_results@ == a.test_results@.push(b.test_results@.last())
    &&& file_converted(b.test_results@.last(), f)
}

/// `b` is `a` after `add_transform_error` for `path`: one more failed
/// suite, whose one test failed, and no other counter changed.
pub open spec fn transform_error_added(a: AggregatedResults, b: AggregatedResults, path: String) -> bool {
    &&& b.num_failed_suites == a.num_failed_suites + 1
    &&& b.num_passed_suites == a.num_passed_suites
    &&& b.num_passed_tests == a.num_passed_tests
    &&& b.num_failed_tests == a.num_failed_tests
    &&& b.num_skipped_tests == a.num_skipped_tests
    &&& b.num_todo_tests == a.num_todo_tests
    &&& b.test_results@ == a.test_results@.push(b.test_results@.last())
    &&& b.test_results@.last().path == path
    &&& !b.test_results@.last().passed
    &&& b.test_results@.last().tests@.len() == 1
    &&& b.test_results@.last().tests@[0].status == TestStatus::Failed
}

/// One call made on a tally: a file result added, or a file that failed
/// to transform.
pub enum TallyStep {
    File(worker::TestFileResult),
    TransformError(String),
}

/// `b` is `a` after the call `step`.
pub open spec fn tally_step(a: AggregatedResults, b: AggregatedResults, step: TallyStep) -> bool {
    match step {
        TallyStep::File(f) => file_added(a, b, f),
        TallyStep::TransformError(path) => transform_error_added(a, b, path),
    }
}

proof fn lemma_converted_counts(pt: Seq<ProtoTestResult>, wt: Seq<worker::TestResult>)
    requires
        pt.len() == wt.len(),
        forall|k: int| 0 <= k < pt.len() ==> test_converted(#[trigger] pt[k], wt[k]),
    ensures
        count_tests_with(pt, TestStatus::Passed) == count_status(wt, "passed"@),
        count_tests_with(pt, TestStatus::Skipped) == count_status(wt, "skipped"@),
        count_tests_with(pt, TestStatus::Todo) == count_status(wt, "todo"@),
        count_tests_with(pt, TestStatus::Failed) >= count_status(wt, "failed"@),
    decreases pt.len(),
{
    if pt.len() > 0 {
        let n = pt.len() - 1;
        assert forall|k: int| 0 <= k < pt.drop_last().len() implies test_converted(
            #[trigger] pt.drop_last()[k],
            wt.drop_last()[k],
        ) by {
            assert(test_converted(pt[k], wt[k]));
        }
        lemma_converted_counts(pt.drop_last(), wt.drop_last());
        assert(test_converted(pt[n], wt[n]));
        lemma_statuses_distinct();
    }
}

proof fn lemma_counts_after_push(a: Seq<ProtoTestFileResult>, b: Seq<ProtoTestFileResult>, st: TestStatus)
    requires
        b.len() == a.len() + 1,
        b.drop_last() == a,
    ensures
        count_results_with(b, st) == count_results_with(a, st) + count_tests_with(b.last().tests@, st),
        passed_suites_of(b) == passed_suites_of(a) + if b.last().passed {
            1nat
        } else {
            0nat
        },
{
}

proof fn lemma_single_test_counts(t: Seq<ProtoTestResult>, st: TestStatus)
    requires
        t.len() == 1,
    ensures
        count_tests_with(t, st) == if t[0].status == st {
            1nat
        } else {
            0nat
        },
{
    assert(count_tests_with(t.drop_last(), st) == 0);
}

proof fn lemma_tally_step(a: AggregatedResults, b: AggregatedResults, step: TallyStep)
    requires
        tally_consistent(a),
        tally_step(a, b, step),
    ensures
        tally_consistent(b),
{
    assert(b.test_results@.drop_last() =~= a.test_results@);
    let last = b.test_results@.last();
    lemma_counts_after_push(a.test_results@, b.test_results@, TestStatus::Passed);
    lemma_counts_after_push(a.test_results@, b.test_results@, TestStatus::Failed);
    lemma_counts_after_push(a.test_results@, b.test_results@, TestStatus::Skipped);
    lemma_counts_after_push(a.test_results@, b.test_results@, TestStatus::Todo);
    match step {
        TallyStep::File(f) => {
            lemma_converted_counts(last.tests@, f.tests@);
        },
        TallyStep::TransformError(_) => {
            lemma_single_test_counts(last.tests@, TestStatus::Passed);
            lemma_single_test_counts(last.tests@, TestStatus::Failed);
            lemma_single_test_counts(last.tests@, TestStatus::Skipped);
            lemma_single_test_counts(last.tests@, TestStatus::Todo);
        },
    }
}

/// Counting holds for a tally whatever calls built it: starting from an
/// empty tally, after any sequence of `add_file_result` and
/// `add_transform_error` calls, each file is a passed or a failed suite,
/// the passed, skipped and todo tests are exactly those the results show,
/// and the failed tests are at most those the results show as failed.
pub proof fn law_tally_consistent(states: Seq<AggregatedResults>, steps: Seq<TallyStep>)
    requires
        states.len() == steps.len() + 1,
        tally_empty(states[0]),
        forall|i: int| 0 <= i < steps.len() ==> tally_step(#[trigger] states[i], states[i + 1], steps[i]),
    ensures
        tally_consistent(states.last()),
    decreases steps.len(),
{
    if steps.len() == 0 {
        assert(states.last() == states[0]);
        assert(states[0].test_results@ =~= Seq::<ProtoTestFileResult>::empty());
    } else {
        let n = steps.len() - 1;
        assert forall|i: int| 0 <= i < steps.drop_last().len() implies tally_step(
            #[trigger] states.drop_last()[i],
            states.drop_last()[i + 1],
            steps.drop_last()[i],
        ) by {
            assert(tally_step(states[i], states[i + 1], steps[i]));
        }
        law_tally_consistent(states.drop_last(), steps.drop_last());
        assert(states.drop_last().last() == states[n]);
        assert(tally_step(states[n], states[n + 1], steps[n]));
        lemma_tally_step(states[n], states[n + 1], steps[n]);
    }
}

/// The number of workers to run with: one when running in band, else the
/// `--maxWorkers` flag, else what the configuration asks for.
pub fn get_max_workers(run_in_band: bool, max_workers_flag: Option<u32>, config_max_workers: usize) -> (r: usize)
    ensures
        r == if run_in_band {
            1
        } else {
            match max_workers_flag {
                Some(w) => w as usize,
                None => config_max_workers,
            }
        },
{
    if run_in_band {
        1
    } else {
        match max_workers_flag {
            Some(w) => w as usize,
            None => config_max_workers,
        }
    }
}

/// The configuration a worker runs a test file with: the project's
/// settings together with the flags of the run.
pub fn create_worker_config(config: &JestConfig, update_snapshots: bool, test_name_pattern: Option<String>) -> (r: worker::WorkerConfig)
    ensures
        r.root_dir@ == config.root_dir@,
        r.setup_files@ == config.setup_files@,
        r.setup_files_after_env@ == config.setup_files_after_env@,
        r.test_timeout == config.test_timeout,
        r.clear_mocks == config.clear_mocks,
        r.reset_mocks == config.reset_mocks,
        r.restore_mocks == config.restore_mocks,
        r.update_snapshots == update_snapshots,
        r.test_name_pattern == test_name_pattern,
{
    worker::WorkerConfig {
        root_dir: config.root_dir.clone(),
        setup_files: copy_strings(&config.setup_files),
        setup_files_after_env: copy_strings(&config.setup_files_after_env),
        test_timeout: config.test_timeout,
        clear_mocks: config.clear_mocks,
        reset_mocks: config.reset_mocks,
        restore_mocks: config.restore_mocks,
        update_snapshots,
        test_name_pattern,
    }
}

/// The message of a refused project root.
pub open spec fn traversal_message(project_root: Seq<char>) -> Seq<char> {
    "Project root path contains invalid '..' traversal: "@ + project_root
}

/// Checks a project root before it is resolved: a path that holds `..`,
/// with backslashes read as slashes, is refused. (Reading backslashes as
/// slashes changes no dot, so this is the same as holding `..`.)
pub fn validate_project_root(project_root: &str) -> (r: Result<(), String>)
    ensures
        r is Err <==> contains(replace_all(project_root@, seq!['\\'], seq!['/']), seq!['.', '.']),
        r is Err <==> contains(project_root@, seq!['.', '.']),
        r matches Err(m) ==> m@ == traversal_message(project_root@),
{
    let cs = chars_of(project_root);
    let backslash = vec!['\\'];
    let slash = vec!['/'];
    let dots = vec!['.', '.'];
    assert(backslash@ =~= seq!['\\']);
    assert(slash@ =~= seq!['/']);
    assert(dots@ =~= seq!['.', '.']);
    let normalized = replace_all_exec(&cs, &backslash, &slash);
    proof {
        lemma_replace_keeps_dots(project_root@);
    }
    if contains_exec(&normalized, &dots) {
        let mut m: Vec<char> = Vec::new();
        push_str(&mut m, "Project root path contains invalid '..' traversal: ");
        push_str(&mut m, project_root);
        Err(string_from_chars(&m))
    } else {
        Ok(())
    }
}

/// The message when a project root cannot be resolved.
pub fn resolve_failure_message(project_root: &str, reason: &str) -> (r: String)
    ensures
        r@ == "Failed to resolve project root path '"@ + project_root@ + "': "@ + reason@,
{
    let mut m: Vec<char> = Vec::new();
    push_str(&mut m, "Failed to resolve project root path '");
    push_str(&mut m, project_root);
    push_str(&mut m, "': ");
    push_str(&mut m, reason);
    string_from_chars(&m)
}

/// A run that found no test file: a success with nothing counted.
pub fn empty_run_response(duration_ms: u64) -> (r: RunResponse)
    ensures
        r.success,
        r.num_passed_suites == 0 && r.num_failed_suites == 0,
        r.num_passed_tests == 0 && r.num_failed_tests == 0,
        r.num_skipped_tests == 0 && r.num_todo_tests == 0,
        r.duration_ms == duration_ms,
        r.test_results@.len() == 0,
        r.snapshot_summary is None,
{
    RunResponse {
        success: true,
        num_passed_suites: 0,
        num_failed_suites: 0,
        num_passed_tests: 0,
        num_failed_tests: 0,
        num_skipped_tests: 0,
        num_todo_tests: 0,
        duration_ms,
        test_results: Vec::new(),
        snapshot_summary: None,
    }
}

impl AggregatedResults {
    /// The number of tests counted, of all four statuses.
    pub fn tests_counted(&self) -> (r: u64)
        requires
            self.num_passed_tests + self.num_failed_tests + self.num_skipped_tests + self.num_todo_tests <= u32::MAX,
        ensures
            r == self.num_passed_tests + self.num_failed_tests + self.num_skipped_tests + self.num_todo_tests,
    {
        (self.num_passed_tests + self.num_failed_tests + self.num_skipped_tests + self.num_todo_tests) as u64
    }

    /// The response for the tally: its counts and results, a success when
    /// nothing failed, and the snapshot summary.
    pub fn into_run_response(self, duration_ms: u64) -> (r: RunResponse)
        ensures
            r.success == (self.num_failed_tests == 0 && self.num_failed_suites == 0),
            r.num_passed_suites == self.num_passed_suites,
            r.num_failed_suites == self.num_failed_suites,
            r.num_passed_tests == self.num_passed_tests,
            r.num_failed_tests == self.num_failed_tests,
            r.num_skipped_tests == self.num_skipped_tests,
            r.num_todo_tests == self.num_todo_tests,
            r.duration_ms == duration_ms,
            r.test_results@ == self.test_results@,
            r.snapshot_summary == snapshot_summary_of(
                self.snap_added,
                self.snap_updated,
                self.snap_matched,
                self.snap_unmatched,
            ),
    {
        let success = self.success();
        let snapshot_summary = self.build_snapshot_summary();
        RunResponse {
            success,
            num_passed_suites: self.num_passed_suites,
            num_failed_suites: self.num_failed_suites,
            num_passed_tests: self.num_passed_tests,
            num_failed_tests: self.num_failed_tests,
            num_skipped_tests: self.num_skipped_tests,
            num_todo_tests: self.num_todo_tests,
            duration_ms,
            test_results: self.test_results,
            snapshot_summary,
        }
    }
}

/// The snapshot summary of four counts: present when any is positive,
/// with removed and unchecked snapshots, which are not tracked, at zero.
pub open spec fn snapshot_summary_of(added: u32, updated: u32, matched: u32, unmatched: u32) -> Option<SnapshotSummary> {
    if added > 0 || updated > 0 || matched > 0 || unmatched > 0 {
        Some(SnapshotSummary { added, updated, removed: 0, matched, unmatched, unchecked: 0 })
    } else {
        None
    }
}

/// The tally of a run over several projects of a monorepo.
pub struct ProjectTotals {
    pub test_results: Vec<ProtoTestFileResult>,
    pub passed_suites: u32,
    pub failed_suites: u32,
    pub passed_tests: u32,
    pub failed_tests: u32,
    pub skipped_tests: u32,
    pub todo_tests: u32,
    pub snap_added: u32,
    pub snap_updated: u32,
    pub snap_matched: u32,
    pub snap_unmatched: u32,
}

/// The snapshot counts of a response, zero when it has no summary.
pub open spec fn response_snaps(r: RunResponse) -> (u32, u32, u32, u32) {
    match r.snapshot_summary {
        Some(s) => (s.added, s.updated, s.matched, s.unmatched),
        None => (0, 0, 0, 0),
    }
}

impl ProjectTotals {
    /// Nothing counted yet.
    pub fn new() -> (r: Self)
        ensures
            r.test_results@.len() == 0,
            r.passed_suites == 0 && r.failed_suites == 0 && r.passed_tests == 0,
            r.failed_tests == 0 && r.skipped_tests == 0 && r.todo_tests == 0,
            r.snap_added == 0 && r.snap_updated == 0 && r.snap_matched == 0 && r.snap_unmatched == 0,
    {
        ProjectTotals {
            test_results: Vec::new(),
            passed_suites: 0,
            failed_suites: 0,
            passed_tests: 0,
            failed_tests: 0,
            skipped_tests: 0,
            todo_tests: 0,
            snap_added: 0,
            snap_updated: 0,
            snap_matched: 0,
            snap_unmatched: 0,
        }
    }

    /// Adds the response of one project: its counts, its snapshot counts
    /// and its file results.
    pub fn add_project(&mut self, result: RunResponse)
        requires
            old(self).passed_suites + result.num_passed_suites <= u32::MAX,
            old(self).failed_suites + result.num_failed_suites <= u32::MAX,
            old(self).passed_tests + result.num_passed_tests <= u32::MAX,
            old(self).failed_tests + result.num_failed_tests <= u32::MAX,
            old(self).skipped_tests + result.num_skipped_tests <= u32::MAX,
            old(self).todo_tests + result.num_todo_tests <= u32::MAX,
            old(self).snap_added + response_snaps(result).0 <= u32::MAX,
            old(self).snap_updated + response_snaps(result).1 <= u32::MAX,
            old(self).snap_matched + response_snaps(result).2 <= u32::MAX,
            old(self).snap_unmatched + response_snaps(result).3 <= u32::MAX,
        ensures
            final(self).passed_suites == old(self).passed_suites + result.num_passed_suites,
            final(self).failed_suites == old(self).failed_suites + result.num_failed_suites,
            final(self).passed_tests == old(self).passed_tests + result.num_passed_tests,
            final(self).failed_tests == old(self).failed_tests + result.num_failed_tests,
            final(self).skipped_tests == old(self).skipped_tests + result.num_skipped_tests,
            final(self).todo_tests == old(self).todo_tests + result.num_todo_tests,
            final(self).snap_added == old(self).snap_added + response_snaps(result).0,
            final(self).snap_updated == old(self).snap_updated + response_snaps(result).1,
            final(self).snap_matched == old(self).snap_matched + response_snaps(result).2,
            final(self).snap_unmatched == old(self).snap_unmatched + response_snaps(result).3,
            final(self).test_results@ == old(self).test_results@ + result.test_results@,
    {
        self.passed_suites = self.passed_suites + result.num_passed_suites;
        self.failed_suites = self.failed_suites + result.num_failed_suites;
        self.passed_tests = self.passed_tests + result.num_passed_tests;
        self.failed_tests = self.failed_tests + result.num_failed_tests;
        self.skipped_tests = self.skipped_tests + result.num_skipped_tests;
        self.todo_tests = self.todo_tests + result.num_todo_tests;
        match &result.snapshot_summary {
            Some(snap) => {
                self.snap_added = self.snap_added + snap.added;
                self.snap_updated = self.snap_updated + snap.updated;
                self.snap_matched = self.snap_matched + snap.matched;
                self.snap_unmatched = self.snap_unmatched + snap.unmatched;
            },
            None => {},
        }
        let mut more = result.test_results;
        self.test_results.append(&mut more);
    }

    /// Counts a project whose run failed as one failed suite.
    pub fn add_failed_project(&mut self)
        requires
            old(self).failed_suites + 1 <= u32::MAX,
        ensures
            final(self).failed_suites == old(self).failed_suites + 1,
            final(self).passed_suites == old(self).passed_suites,
            final(self).passed_tests == old(self).passed_tests,
            final(self).failed_tests == old(self).failed_tests,
            final(self).skipped_tests == old(self).skipped_tests,
            final(self).todo_tests == old(self).todo_tests,
            final(self).snap_added == old(self).snap_added,
            final(self).snap_updated == old(self).snap_updated,
            final(self).snap_matched == old(self).snap_matched,
            final(self).snap_unmatched == old(self).snap_unmatched,
            final(self).test_results@ == old(self).test_results@,
    {
        self.failed_suites = self.failed_suites + 1;
    }

    /// The response for all projects: a success when no test and no suite
    /// failed.
    pub fn finish(self, duration_ms: u64) -> (r: RunResponse)
        ensures
            r.success == (self.failed_tests == 0 && self.failed_suites == 0),
            r.num_passed_suites == self.passed_suites,
            r.num_failed_suites == self.failed_suites,
            r.num_passed_tests == self.passed_tests,
            r.num_failed_tests == self.failed_tests,
            r.num_skipped_tests == self.skipped_tests,
            r.num_todo_tests == self.todo_tests,
            r.duration_ms == duration_ms,
            r.test_results@ == self.test_results@,
            r.snapshot_summary == snapshot_summary_of(self.snap_added, self.snap_updated, self.snap_matched, self.snap_unmatched),
    {
        let snapshot_summary = if self.snap_added > 0 || self.snap_updated > 0 || self.snap_matched > 0
            || self.snap_unmatched > 0 {
            Some(
                SnapshotSummary {
                    added: self.snap_added,
                    updated: self.snap_updated,
                    removed: 0,
                    matched: self.snap_matched,
                    unmatched: self.snap_unmatched,
                    unchecked: 0,
                },
            )
        } else {
            None
        };
        RunResponse {
            success: self.failed_tests == 0 && self.failed_suites == 0,
            num_passed_suites: self.passed_suites,
            num_failed_suites: self.failed_suites,
            num_passed_tests: self.passed_tests,
            num_failed_tests: self.failed_tests,
            num_skipped_tests: self.skipped_tests,
            num_todo_tests: self.todo_tests,
            duration_ms,
            test_results: self.test_results,
            snapshot_summary,
        }
    }
}

/// Where a project of the `projects` setting lives, `root_dir` being the
/// configuration's root: a path starting with `<` has `<rootDir>`
/// replaced by the root, an absolute path stands as it is, another is
/// taken from the root; an inline configuration lives at its `rootDir`,
/// likewise; anything else names no project.
pub open spec fn project_location(project: ProjectEntry, root_dir: Seq<char>) -> Option<Seq<char>> {
    match project {
        ProjectEntry::Path(s) => if s@.len() > 0 && s@[0] == '<' {
            Some(replace_all(s@, "<rootDir>"@, root_dir))
        } else {
            Some(join_path(root_dir, s@))
        },
        ProjectEntry::Inline(Some(root)) => Some(join_path(root_dir, root@)),
        _ => None,
    }
}

/// The path of a project of the `projects` setting.
pub fn resolve_project_path(project: &ProjectEntry, root_dir: &str) -> (r: Option<String>)
    ensures
        match (r, project_location(*project, root_dir@)) {
            (Some(p), Some(q)) => p@ == q,
            (None, None) => true,
            _ => false,
        },
{
    match project {
        ProjectEntry::Path(s) => {
            let cs = chars_of(s.as_str());
            if cs.len() > 0 && cs[0] == '<' {
                let pat = chars_of("<rootDir>");
                proof {
                    reveal_strlit("<rootDir>");
                }
                let rep = chars_of(root_dir);
                let out = replace_all_exec(&cs, &pat, &rep);
                Some(string_from_chars(&out))
            } else if is_absolute_path(s.as_str()) {
                Some(s.clone())
            } else {
                Some(join(root_dir, s.as_str()))
            }
        },
        ProjectEntry::Inline(Some(root)) => {
            if is_absolute_path(root.as_str()) {
                Some(root.clone())
            } else {
                Some(join(root_dir, root.as_str()))
            }
        },
        _ => None,
    }
}

/// Whether a configuration runs several projects: it has a non-empty
/// `projects` list.
pub fn has_projects(config: &JestConfig) -> (r: bool)
    ensures
        r == (config.projects matches Some(ps) && ps@.len() > 0),
{
    match &config.projects {
        Some(ps) => ps.len() > 0,
        None => false,
    }
}

/// How a run picks its test files.
pub enum TestSelection {
    /// The tests related to these source files.
    Related(Vec<String>),
    /// The tests related to what git reports as changed.
    OnlyChanged,
    /// The tests matching the request's patterns.
    Matching,
}

/// The selection the flags ask for: related tests when any source file
/// is named, else changed files when asked, else the patterns.
pub fn test_selection(flags: &RunFlags) -> (r: TestSelection)
    ensures
        flags.find_related_tests@.len() > 0 ==> (r matches TestSelection::Related(fs) && fs@ == flags.find_related_tests@),
        flags.find_related_tests@.len() == 0 && flags.only_changed ==> r is OnlyChanged,
        flags.find_related_tests@.len() == 0 && !flags.only_changed ==> r is Matching,
{
    if flags.find_related_tests.len() > 0 {
        TestSelection::Related(copy_strings(&flags.find_related_tests))
    } else if flags.only_changed {
        TestSelection::OnlyChanged
    } else {
        TestSelection::Matching
    }
}

/// The tests to run for changed files: none when nothing changed, else
/// those related to the changes.
pub fn only_changed_tests(changed_files: &[String], all_tests: &[String]) -> (r: Vec<String>)
    ensures
        changed_files@.len() == 0 ==> r@.len() == 0,
        changed_files@.len() > 0 ==> sorted_dedup_of(
            r@,
            all_tests@.filter(|t: String| is_related_test(changed_files@, t)),
        ),
{
    if changed_files.len() == 0 {
        Vec::new()
    } else {
        find_related_test_files(changed_files, all_tests)
    }
}

/// What a watch poll does once it knows the changed files.
pub enum PollPlan {
    /// Nothing changed.
    NoChanges,
    /// Files changed but no test is to be re-run.
    ChangedOnly,
    /// Re-run these tests.
    RunAffected(Vec<String>),
}

/// The plan of a watch poll: nothing when no file changed; else the tests
/// that the changes affect, or none.
pub fn poll_plan(changed_files: &[String], all_test_files: &[String]) -> (r: PollPlan)
    ensures
        r is NoChanges <==> changed_files@.len() == 0,
        r is ChangedOnly ==> affected_tests_of(changed_files@, all_test_files@, seq![]),
        r matches PollPlan::RunAffected(a) ==> a@.len() > 0 && affected_tests_of(changed_files@, all_test_files@, a@),
{
    if changed_files.len() == 0 {
        return PollPlan::NoChanges;
    }
    let affected = get_affected_tests(changed_files, all_test_files);
    if affected.len() == 0 {
        assert(affected@ =~= Seq::<String>::empty());
        PollPlan::ChangedOnly
    } else {
        PollPlan::RunAffected(affected)
    }
}

/// The poll response when nothing changed.
pub fn no_changes_response() -> (r: WatchPollResponse)
    ensures
        !r.has_changes && r.run_result is None && r.changed_files@.len() == 0,
{
    WatchPollResponse { has_changes: false, run_result: None, changed_files: Vec::new() }
}

/// The message when a poll names an unknown watch session.
pub fn session_not_found_message(session_id: &str) -> (r: String)
    ensures
        r@ == "Watch session not found: "@ + session_id@,
{
    let mut m: Vec<char> = Vec::new();
    push_str(&mut m, "Watch session not found: ");
    push_str(&mut m, session_id);
    string_from_chars(&m)
}

/// The answer to a request that could not be parsed.
pub fn invalid_request_error(reason: &str) -> (r: ErrorResponse)
    ensures
        r.code == ErrorCode::InvalidRequest,
        r.message@ == "Failed to parse request: "@ + reason@,
        r.details is None,
{
    let mut m: Vec<char> = Vec::new();
    push_str(&mut m, "Failed to parse request: ");
    push_str(&mut m, reason);
    ErrorResponse { code: ErrorCode::InvalidRequest, message: string_from_chars(&m), details: None }
}

/// The answer to a request whose handling failed inside the daemon.
pub fn internal_error(message: String, details: Option<String>) -> (r: ErrorResponse)
    ensures
        r.code == ErrorCode::InternalError,
        r.message == message,
        r.details == details,
{
    ErrorResponse { code: ErrorCode::InternalError, message, details }
}

/// The answer when a lock of the daemon's state is poisoned, `what`
/// naming the state (`Configs`, `Watch sessions`).
pub fn lock_poisoned_error(what: &str, reason: &str) -> (r: ErrorResponse)
    ensures
        r.code == ErrorCode::InternalError,
        r.message@ == what@ + " lock poisoned: "@ + reason@,
        r.details is None,
{
    let mut m: Vec<char> = Vec::new();
    push_str(&mut m, what);
    push_str(&mut m, " lock poisoned: ");
    push_str(&mut m, reason);
    ErrorResponse { code: ErrorCode::InternalError, message: string_from_chars(&m), details: None }
}

/// The issue reported for a worker that is not alive.
pub open spec fn dead_worker_issue(id: u32) -> Seq<char> {
    "Worker "@ + decimal(id as nat) + " is not alive"@
}

/// The issues of a health check: one per worker that is not alive, in
/// order.
pub open spec fn worker_issues(workers: Seq<WorkerHealth>) -> Seq<Seq<char>>
    decreases workers.len(),
{
    if workers.len() == 0 {
        seq![]
    } else {
        let rest = worker_issues(workers.drop_last());
        if workers.last().alive {
            rest
        } else {
            rest.push(dead_worker_issue(workers.last().id))
        }
    }
}

/// The issues of a health check.
pub fn health_issues(workers: &[WorkerHealth]) -> (r: Vec<String>)
    ensures
        r@.map_values(|s: String| s@) == worker_issues(workers@),
{
    let mut out: Vec<String> = Vec::new();
    let mut i: usize = 0;
    while i < workers.len()
        invariant
            i <= workers@.len(),
            out@.map_values(|s: String| s@) == worker_issues(workers@.take(i as int)),
        decreases workers@.len() - i,
    {
        let w = workers[i];
        assert(workers@.take(i + 1).drop_last() =~= workers@.take(i as int));
        if !w.alive {
            let mut m: Vec<char> = Vec::new();
            push_str(&mut m, "Worker ");
            push_decimal(&mut m, w.id as u64);
            push_str(&mut m, " is not alive");
            let line = string_from_chars(&m);
            let ghost before = out@;
            out.push(line);
            assert(out@.map_values(|s: String| s@) =~= before.map_values(|s: String| s@).push(line@));
        }
        i = i + 1;
    }
    assert(workers@.take(workers@.len() as int) =~= workers@);
    out
}

/// The answer to a health check: healthy when no issue was found.
pub fn build_health_response(
    version: String,
    uptime_secs: u64,
    latency_us: u64,
    memory_bytes: u64,
    workers: Vec<WorkerHealth>,
    watch_sessions: usize,
    cached_projects: usize,
) -> (r: HealthResponse)
    ensures
        r.issues@.map_values(|s: String| s@) == worker_issues(workers@),
        r.healthy == (worker_issues(workers@).len() == 0),
        r.version == version,
        r.uptime_secs == uptime_secs,
        r.latency_us == latency_us,
        r.memory_bytes == memory_bytes,
        r.workers@ == workers@,
        r.watch_sessions == watch_sessions as u32,
        r.cached_projects == cached_projects as u32,
{
    let issues = health_issues(&workers);
    assert(issues@.len() == issues@.map_values(|s: String| s@).len());
    HealthResponse {
        healthy: issues.len() == 0,
        version,
        uptime_secs,
        latency_us,
        memory_bytes,
        workers,
        watch_sessions: watch_sessions as u32,
        cached_projects: cached_projects as u32,
        issues,
    }
}

/// Whether a file in the socket directory is a socket an earlier daemon
/// left: `rjest-*.sock`.
pub fn is_stale_socket_name(name: &str) -> (r: bool)
    ensures
        r == (starts_with(name@, "rjest-"@) && ends_with(name@, ".sock"@)),
{
    let cs = chars_of(name);
    starts_with_exec(&cs, &chars_of("rjest-")) && ends_with_exec(&cs, &chars_of(".sock"))
}

/// What the daemon does for a request.
pub enum RequestTask {
    /// Send this reply, with nothing else to do.
    Reply(Response),
    /// Stop serving, and reply that the daemon is shutting down.
    Stop,
    /// Gather the daemon's state for a status reply.
    Status,
    /// Gather the workers' state for a health reply.
    Health,
    /// Run tests.
    Run(RunRequest),
    /// Start a watch session.
    WatchStart(WatchStartRequest),
    /// Poll a watch session.
    WatchPoll(WatchPollRequest),
    /// Stop a watch session, then reply that it stopped.
    WatchStop(WatchStopRequest),
}

/// What a request asks of the daemon: a request that could not be read
/// (`Err` with the reason) is answered as invalid, a ping with a pong,
/// and every other request with the work it names.
pub fn handle_request(parsed: Result<Request, String>) -> (r: RequestTask)
    ensures
        match parsed {
            Err(reason) => r matches RequestTask::Reply(Response::Error(e)) && e.code == ErrorCode::InvalidRequest
                && e.message@ == "Failed to parse request: "@ + reason@ && e.details is None,
            Ok(Request::Ping) => r matches RequestTask::Reply(Response::Pong),
            Ok(Request::Shutdown) => r is Stop,
            Ok(Request::Status) => r is Status,
            Ok(Request::Health) => r is Health,
            Ok(Request::Run(q)) => r matches RequestTask::Run(x) && x == q,
            Ok(Request::WatchStart(q)) => r matches RequestTask::WatchStart(x) && x == q,
            Ok(Request::WatchPoll(q)) => r matches RequestTask::WatchPoll(x) && x == q,
            Ok(Request::WatchStop(q)) => r matches RequestTask::WatchStop(x) && x == q,
        },
{
    match parsed {
        Err(reason) => RequestTask::Reply(Response::Error(invalid_request_error(reason.as_str()))),
        Ok(Request::Ping) => RequestTask::Reply(Response::Pong),
        Ok(Request::Shutdown) => RequestTask::Stop,
        Ok(Request::Status) => RequestTask::Status,
        Ok(Request::Health) => RequestTask::Health,
        Ok(Request::Run(q)) => RequestTask::Run(q),
        Ok(Request::WatchStart(q)) => RequestTask::WatchStart(q),
        Ok(Request::WatchPoll(q)) => RequestTask::WatchPoll(q),
        Ok(Request::WatchStop(q)) => RequestTask::WatchStop(q),
    }
}

/// The reply to a run: its results, or an internal error with the
/// failure's message and details.
pub fn run_reply(outcome: Result<RunResponse, (String, String)>) -> (r: Response)
    ensures
        match outcome {
            Ok(x) => r matches Response::Run(y) && y == x,
            Err((m, d)) => r matches Response::Error(e) && e.code == ErrorCode::InternalError && e.message == m
                && e.details == Some(d),
        },
{
    match outcome {
        Ok(x) => Response::Run(x),
        Err((m, d)) => Response::Error(internal_error(m, Some(d))),
    }
}

/// The reply to the start of a watch session.
pub fn watch_started_reply(outcome: Result<WatchStartedResponse, (String, String)>) -> (r: Response)
    ensures
        match outcome {
            Ok(x) => r matches Response::WatchStarted(y) && y == x,
            Err((m, d)) => r matches Response::Error(e) && e.code == ErrorCode::InternalError && e.message == m
                && e.details == Some(d),
        },
{
    match outcome {
        Ok(x) => Response::WatchStarted(x),
        Err((m, d)) => Response::Error(internal_error(m, Some(d))),
    }
}

/// The reply to a watch poll.
pub fn watch_poll_reply(outcome: Result<WatchPollResponse, (String, String)>) -> (r: Response)
    ensures
        match outcome {
            Ok(x) => r matches Response::WatchPoll(y) && y == x,
            Err((m, d)) => r matches Response::Error(e) && e.code == ErrorCode::InternalError && e.message == m
                && e.details == Some(d),
        },
{
    match outcome {
        Ok(x) => Response::WatchPoll(x),
        Err((m, d)) => Response::Error(internal_error(m, Some(d))),
    }
}

/// The status reply: the version and uptime, the projects whose
/// configuration is cached (also counted as graphs), the transform
/// lookups from the metrics, and the tests run so far.
pub fn status_response(
    version: String,
    uptime_secs: u64,
    projects_count: usize,
    snapshot: MetricsSnapshot,
    total_tests_run: u64,
) -> (r: StatusResponse)
    requires
        snapshot.cache_hits + snapshot.cache_misses <= u64::MAX,
    ensures
        r.version == version,
        r.uptime_secs == uptime_secs,
        r.projects_count == projects_count as u32,
        r.cache_stats == (CacheStats {
            transform_count: (snapshot.cache_hits + snapshot.cache_misses) as u64,
            transform_size_bytes: 0,
            graph_count: projects_count as u32,
            hits: snapshot.cache_hits,
            misses: snapshot.cache_misses,
        }),
        r.worker_stats == (WorkerStats { active: 0, idle: 0, total_tests_run }),
{
    StatusResponse {
        version,
        uptime_secs,
        projects_count: projects_count as u32,
        cache_stats: CacheStats {
            transform_count: snapshot.transform_count(),
            transform_size_bytes: 0,
            graph_count: projects_count as u32,
            hits: snapshot.cache_hits,
            misses: snapshot.cache_misses,
        },
        worker_stats: WorkerStats { active: 0, idle: 0, total_tests_run },
    }
}

/// The worker results of a run, with the files that failed to transform,
/// fit the counters of a tally.
pub open spec fn run_fits(results: Seq<Result<worker::TestFileResult, String>>, transform_errors: Seq<(String, String)>) -> bool {
    run_tally(results).suites + transform_errors.len() <= u32::MAX && run_tally(results).fits
}

/// What the results of a run add up to: the number of results (passed or
/// failed suites), and whether every counter stays within 32 bits along
/// the way.
pub struct RunTally {
    pub suites: nat,
    pub passed: nat,
    pub failed: nat,
    pub skipped: nat,
    pub todo: nat,
    pub added: nat,
    pub updated: nat,
    pub matched: nat,
    pub unmatched: nat,
    pub fits: bool,
}

/// The tally of `results`.
pub open spec fn run_tally(results: Seq<Result<worker::TestFileResult, String>>) -> RunTally
    decreases results.len(),
{
    if results.len() == 0 {
        RunTally {
            suites: 0,
            passed: 0,
            failed: 0,
            skipped: 0,
            todo: 0,
            added: 0,
            updated: 0,
            matched: 0,
            unmatched: 0,
            fits: true,
        }
    } else {
        let t = run_tally(results.drop_last());
        match results.last() {
            Ok(f) => {
                let n = RunTally {
                    suites: t.suites + 1,
                    passed: t.passed + count_status(f.tests@, "passed"@),
                    failed: t.failed + count_status(f.tests@, "failed"@),
                    skipped: t.skipped + count_status(f.tests@, "skipped"@),
                    todo: t.todo + count_status(f.tests@, "todo"@),
                    added: t.added + snap_of(f).0,
                    updated: t.updated + snap_of(f).1,
                    matched: t.matched + snap_of(f).2,
                    unmatched: t.unmatched + snap_of(f).3,
                    fits: t.fits,
                };
                RunTally {
                    fits: n.fits && n.suites <= u32::MAX && n.passed <= u32::MAX && n.failed <= u32::MAX
                        && n.skipped <= u32::MAX && n.todo <= u32::MAX && n.added <= u32::MAX && n.updated
                        <= u32::MAX && n.matched <= u32::MAX && n.unmatched <= u32::MAX,
                    ..n
                }
            },
            Err(_) => RunTally { suites: t.suites + 1, fits: t.fits && t.suites + 1 <= u32::MAX, ..t },
        }
    }
}

/// The worker results of a run that are file results, in order.
pub open spec fn ok_files(results: Seq<Result<worker::TestFileResult, String>>) -> Seq<worker::TestFileResult>
    decreases results.len(),
{
    if results.len() == 0 {
        seq![]
    } else {
        match results.last() {
            Ok(f) => ok_files(results.drop_last()).push(f),
            Err(_) => ok_files(results.drop_last()),
        }
    }
}

/// The number of file results that passed.
pub open spec fn passed_files(results: Seq<Result<worker::TestFileResult, String>>) -> nat
    decreases results.len(),
{
    if results.len() == 0 {
        0
    } else {
        passed_files(results.drop_last()) + match results.last() {
            Ok(f) => if f.passed {
                1nat
            } else {
                0nat
            },
            Err(_) => 0nat,
        }
    }
}

/// `p` is the entry of a file at `path` that failed to transform with
/// the message `msg`.
pub open spec fn transform_entry(p: ProtoTestFileResult, path: String, msg: String) -> bool {
    &&& p.path == path
    &&& !p.passed
    &&& p.duration_ms == 0
    &&& p.console_output is None
    &&& p.tests@.len() == 1
    &&& p.tests@[0].name@ == "transform"@
    &&& p.tests@[0].status == TestStatus::Failed
    &&& p.tests@[0].duration_ms == 0
    &&& p.tests@[0].error == Some(ProtoTestError { message: msg, stack: None, diff: None, location: None })
}

proof fn lemma_tally_prefix(results: Seq<Result<worker::TestFileResult, String>>, k: int)
    requires
        0 <= k <= results.len(),
        run_tally(results).fits,
    ensures
        run_tally(results.take(k)).fits,
    decreases results.len() - k,
{
    if k < results.len() {
        lemma_tally_prefix(results, k + 1);
        assert(results.take(k + 1).drop_last() =~= results.take(k));
    } else {
        assert(results.take(k) =~= results);
    }
}

proof fn lemma_tally_suites(results: Seq<Result<worker::TestFileResult, String>>)
    ensures
        run_tally(results).suites == results.len(),
        run_tally(results).suites == ok_files(results).len() + (results.len() - ok_files(results).len()),
        passed_files(results) <= ok_files(results).len(),
    decreases results.len(),
{
    if results.len() > 0 {
        lemma_tally_suites(results.drop_last());
    }
}

/// Tallies the results of a run: each file result as `add_file_result`
/// counts it, each worker failure as a failed suite, then each file that
/// failed to transform as `add_transform_error` records it.
#[verifier::rlimit(40)]
pub fn aggregate_run(
    results: Vec<Result<worker::TestFileResult, String>>,
    transform_errors: Vec<(String, String)>,
) -> (r: AggregatedResults)
    requires
        run_fits(results@, transform_errors@),
    ensures
        r.num_passed_suites == passed_files(results@),
        r.num_failed_suites == results@.len() - passed_files(results@) + transform_errors@.len(),
        r.num_passed_suites + r.num_failed_suites == results@.len() + transform_errors@.len(),
        r.num_passed_tests == run_tally(results@).passed,
        r.num_failed_tests == run_tally(results@).failed,
        r.num_skipped_tests == run_tally(results@).skipped,
        r.num_todo_tests == run_tally(results@).todo,
        r.snap_added == run_tally(results@).added,
        r.snap_updated == run_tally(results@).updated,
        r.snap_matched == run_tally(results@).matched,
        r.snap_unmatched == run_tally(results@).unmatched,
        r.test_results@.len() == ok_files(results@).len() + transform_errors@.len(),
        forall|i: int| 0 <= i < ok_files(results@).len() ==> file_converted(#[trigger] r.test_results@[i], ok_files(results@)[i]),
        forall|j: int| 0 <= j < transform_errors@.len() ==> transform_entry(
            #[trigger] r.test_results@[ok_files(results@).len() + j],
            transform_errors@[j].0,
            transform_errors@[j].1,
        ),
{
    let ghost all = results@;
    let ghost errs = transform_errors@;
    let mut agg = AggregatedResults::new();
    let mut rest = results;
    let mut k: usize = 0;
    proof {
        lemma_tally_suites(all);
        assert(all.take(0) =~= Seq::<Result<worker::TestFileResult, String>>::empty());
        assert(all.skip(0) =~= all);
    }
    while rest.len() > 0
        invariant
            k <= all.len(),
            rest@ == all.skip(k as int),
            run_fits(all, errs),
            run_tally(all).suites == all.len(),
            agg.num_passed_suites == passed_files(all.take(k as int)),
            agg.num_failed_suites == k - passed_files(all.take(k as int)),
            agg.num_passed_tests == run_tally(all.take(k as int)).passed,
            agg.num_failed_tests == run_tally(all.take(k as int)).failed,
            agg.num_skipped_tests == run_tally(all.take(k as int)).skipped,
            agg.num_todo_tests == run_tally(all.take(k as int)).todo,
            agg.snap_added == run_tally(all.take(k as int)).added,
            agg.snap_updated == run_tally(all.take(k as int)).updated,
            agg.snap_matched == run_tally(all.take(k as int)).matched,
            agg.snap_unmatched == run_tally(all.take(k as int)).unmatched,
            agg.test_results@.len() == ok_files(all.take(k as int)).len(),
            forall|i: int| 0 <= i < agg.test_results@.len() ==> file_converted(#[trigger] agg.test_results@[i], ok_files(all.take(k as int))[i]),
        decreases rest@.len(),
    {
        let item = rest.remove(0);
        assert(item == all[k as int]);
        let ghost pre = all.take(k as int);
        let ghost next = all.take(k + 1);
        assert(next.drop_last() =~= pre);
        assert(next.last() == item);
        proof {
            lemma_tally_prefix(all, k + 1);
            lemma_tally_suites(next);
            lemma_tally_suites(pre);
        }
        let ghost before = agg.test_results@;
        match item {
            Ok(f) => {
                agg.add_file_result(f);
                assert forall|i: int| 0 <= i < agg.test_results@.len() implies file_converted(
                    #[trigger] agg.test_results@[i],
                    ok_files(next)[i],
                ) by {
                    if i < before.len() {
                        assert(agg.test_results@[i] == before[i]);
                    }
                }
            },
            Err(_) => {
                agg.num_failed_suites = agg.num_failed_suites + 1;
            },
        }
        k = k + 1;
        assert(rest@ =~= all.skip(k as int));
    }
    assert(all.take(k as int) =~= all);
    let ghost nok = agg.test_results@.len();
    let mut errors = transform_errors;
    let mut j: usize = 0;
    assert(errs.skip(0) =~= errs);
    while errors.len() > 0
        invariant
            j <= errs.len(),
            errors@ == errs.skip(j as int),
            run_fits(all, errs),
            nok == ok_files(all).len(),
            run_tally(all).suites == all.len(),
            agg.num_passed_suites == passed_files(all),
            agg.num_failed_suites == all.len() - passed_files(all) + j,
            passed_files(all) <= all.len(),
            agg.num_passed_tests == run_tally(all).passed,
            agg.num_failed_tests == run_tally(all).failed,
            agg.num_skipped_tests == run_tally(all).skipped,
            agg.num_todo_tests == run_tally(all).todo,
            agg.snap_added == run_tally(all).added,
            agg.snap_updated == run_tally(all).updated,
            agg.snap_matched == run_tally(all).matched,
            agg.snap_unmatched == run_tally(all).unmatched,
            agg.test_results@.len() == nok + j,
            forall|i: int| 0 <= i < nok ==> file_converted(#[trigger] agg.test_results@[i], ok_files(all)[i]),
            forall|q: int| 0 <= q < j ==> transform_entry(#[trigger] agg.test_results@[nok + q], errs[q].0, errs[q].1),
        decreases errors@.len(),
    {
        let (path, msg) = errors.remove(0);
        assert((path, msg) == errs[j as int]);
        let ghost before = agg.test_results@;
        agg.add_transform_error(path, msg);
        assert forall|i: int| 0 <= i < nok implies file_converted(#[trigger] agg.test_results@[i], ok_files(all)[i]) by {
            assert(agg.test_results@[i] == before[i]);
        }
        assert forall|q: int| 0 <= q < j + 1 implies transform_entry(#[trigger] agg.test_results@[nok + q], errs[q].0, errs[q].1) by {
            if q < j {
                assert(agg.test_results@[nok + q] == before[nok + q]);
            }
        }
        j = j + 1;
        assert(errors@ =~= errs.skip(j as int));
    }
    agg
}

/// The number of tests of `tests` with status `st`.
fn count_status_exec(tests: &Vec<worker::TestResult>, st: &str) -> (r: u64)
    ensures
        r == count_status(tests@, st@),
{
    let mut n: u64 = 0;
    let mut i: usize = 0;
    while i < tests.len()
        invariant
            i <= tests@.len(),
            n == count_status(tests@.take(i as int), st@),
            n <= i,
        decreases tests@.len() - i,
    {
        proof {
            lemma_count_prefix(tests@, i as int + 1, st@);
        }
        if str_equal(tests[i].status.as_str(), st) {
            n = n + 1;
        }
        i = i + 1;
    }
    assert(tests@.take(tests@.len() as int) =~= tests@);
    n
}

/// Whether the results of a run, with the files that failed to
/// transform, fit the counters of a tally.
pub fn fits_run(results: &Vec<Result<worker::TestFileResult, String>>, transform_errors: &Vec<(String, String)>) -> (r: bool)
    ensures
        r == run_fits(results@, transform_errors@),
{
    let max: u64 = 0xffff_ffff;
    let mut suites: u64 = 0;
    let mut passed: u64 = 0;
    let mut failed: u64 = 0;
    let mut skipped: u64 = 0;
    let mut todo: u64 = 0;
    let mut added: u64 = 0;
    let mut updated: u64 = 0;
    let mut matched: u64 = 0;
    let mut unmatched: u64 = 0;
    let mut i: usize = 0;
    let ghost all = results@;
    while i < results.len()
        invariant
            i <= all.len(),
            all == results@,
            max == u32::MAX,
            run_tally(all.take(i as int)).fits,
            suites == run_tally(all.take(i as int)).suites,
            passed == run_tally(all.take(i as int)).passed,
            failed == run_tally(all.take(i as int)).failed,
            skipped == run_tally(all.take(i as int)).skipped,
            todo == run_tally(all.take(i as int)).todo,
            added == run_tally(all.take(i as int)).added,
            updated == run_tally(all.take(i as int)).updated,
            matched == run_tally(all.take(i as int)).matched,
            unmatched == run_tally(all.take(i as int)).unmatched,
            suites <= max && passed <= max && failed <= max && skipped <= max && todo <= max,
            added <= max && updated <= max && matched <= max && unmatched <= max,
        decreases all.len() - i,
    {
        let ghost next = all.take(i + 1);
        assert(next.drop_last() =~= all.take(i as int));
        assert(next.last() == all[i as int]);
        match &results[i] {
            Ok(f) => {
                let (a, u, m, x) = match f.snapshot_summary {
                    Some(snap) => (snap.added as u64, snap.updated as u64, snap.matched as u64, snap.unmatched as u64),
                    None => (0, 0, 0, 0),
                };
                let cp = count_status_exec(&f.tests, "passed");
                let cf = count_status_exec(&f.tests, "failed");
                let cs = count_status_exec(&f.tests, "skipped");
                let ct = count_status_exec(&f.tests, "todo");
                if cp > max || cf > max || cs > max || ct > max {
                    proof {
                        lemma_tally_unfits(all, i as int + 1);
                    }
                    return false;
                }
                suites = suites + 1;
                passed = passed + cp;
                failed = failed + cf;
                skipped = skipped + cs;
                todo = todo + ct;
                added = added + a;
                updated = updated + u;
                matched = matched + m;
                unmatched = unmatched + x;
                if suites > max || passed > max || failed > max || skipped > max || todo > max || added > max
                    || updated > max || matched > max || unmatched > max {
                    proof {
                        lemma_tally_unfits(all, i as int + 1);
                    }
                    return false;
                }
            },
            Err(_) => {
                suites = suites + 1;
                if suites > max {
                    proof {
                        lemma_tally_unfits(all, i as int + 1);
                    }
                    return false;
                }
            },
        }
        i = i + 1;
    }
    assert(all.take(all.len() as int) =~= all);
    (transform_errors.len() as u64) <= max - suites
}

proof fn lemma_tally_unfits(results: Seq<Result<worker::TestFileResult, String>>, k: int)
    requires
        0 <= k <= results.len(),
        !run_tally(results.take(k)).fits,
    ensures
        !run_tally(results).fits,
{
    if run_tally(results).fits {
        lemma_tally_prefix(results, k);
    }
}

/// The files compiled, in order, and for each file that failed to
/// compile its path with `Transform failed: ` and the reason; results and
/// paths are taken pairwise, as far as both go.
pub fn split_transforms(results: Vec<Result<TransformResult, String>>, paths: &[String]) -> (r: (
    Vec<TransformResult>,
    Vec<(String, String)>,
))
    ensures
        r.0@ == compiled_of_run(results@.take(min_len(results@.len(), paths@.len()))),
        pair_views(r.1@) == failures_of(results@, paths@, min_len(results@.len(), paths@.len())),
{
    let ghost n = min_len(results@.len(), paths@.len());
    let ghost all = results@;
    let mut rest = results;
    let mut ok: Vec<TransformResult> = Vec::new();
    let mut errors: Vec<(String, String)> = Vec::new();
    let mut i: usize = 0;
    assert(all.skip(0) =~= all);
    while rest.len() > 0 && i < paths.len()
        invariant
            i <= n,
            n == min_len(all.len(), paths@.len()),
            rest@ == all.skip(i as int),
            ok@ == compiled_of_run(all.take(i as int)),
            pair_views(errors@) == failures_of(all, paths@, i as int),
        decreases rest@.len(),
    {
        let item = rest.remove(0);
        assert(item == all[i as int]);
        assert(all.take(i + 1).drop_last() =~= all.take(i as int));
        assert(all.take(i + 1).last() == item);
        let ghost before = pair_views(errors@);
        match item {
            Ok(t) => {
                ok.push(t);
            },
            Err(e) => {
                let mut m: Vec<char> = Vec::new();
                push_str(&mut m, "Transform failed: ");
                push_str(&mut m, e.as_str());
                let entry = (paths[i].clone(), string_from_chars(&m));
                errors.push(entry);
                assert(pair_views(errors@) =~= before.push((paths@[i as int]@, "Transform failed: "@ + e@)));
            },
        }
        i = i + 1;
        assert(rest@ =~= all.skip(i as int));
    }
    proof {
        if i < n {
            assert(rest@.len() == 0);
            assert(all.skip(i as int).len() == all.len() - i);
        }
    }
    (ok, errors)
}

/// The smaller of two lengths.
pub open spec fn min_len(a: nat, b: nat) -> int {
    if a < b {
        a as int
    } else {
        b as int
    }
}

/// The views of pairs of strings.
pub open spec fn pair_views(v: Seq<(String, String)>) -> Seq<(Seq<char>, Seq<char>)> {
    v.map_values(|p: (String, String)| (p.0@, p.1@))
}

/// The compiled files among `results`, in order.
pub open spec fn compiled_of_run(results: Seq<Result<TransformResult, String>>) -> Seq<TransformResult>
    decreases results.len(),
{
    if results.len() == 0 {
        seq![]
    } else {
        match results.last() {
            Ok(t) => compiled_of_run(results.drop_last()).push(t),
            Err(_) => compiled_of_run(results.drop_last()),
        }
    }
}

/// Among the first `n` results, each failure as its file's path and its
/// message, in order.
pub open spec fn failures_of(results: Seq<Result<TransformResult, String>>, paths: Seq<String>, n: int) -> Seq<(Seq<char>, Seq<char>)>
    decreases n,
{
    if n <= 0 {
        seq![]
    } else {
        let rest = failures_of(results, paths, n - 1);
        match results[n - 1] {
            Err(e) => rest.push((paths[n - 1]@, "Transform failed: "@ + e@)),
            Ok(_) => rest,
        }
    }
}

/// Replacing backslashes by slashes neither makes nor breaks a `..`.
proof fn lemma_replace_keeps_dots(s: Seq<char>)
    ensures
        replace_all(s, seq!['\\'], seq!['/']) == replace_chars(s, '\\', '/'),
        contains(replace_chars(s, '\\', '/'), seq!['.', '.']) == contains(s, seq!['.', '.']),
    decreases s.len(),
{
    lemma_replace_one_char(s, '\\', '/');
    let t = replace_chars(s, '\\', '/');
    assert(t.len() == s.len());
    assert forall|i: int| 0 <= i < s.len() implies (t[i] == '.') == (s[i] == '.') by {
        lemma_replace_chars_index(s, '\\', '/', i);
    }
    if contains(t, seq!['.', '.']) {
        let i = choose|i: int| occurs_at(t, seq!['.', '.'], i);
        assert(t.subrange(i, i + 2)[0] == t[i]);
        assert(t.subrange(i, i + 2)[1] == t[i + 1]);
        assert(s.subrange(i, i + 2) =~= seq!['.', '.']);
        assert(occurs_at(s, seq!['.', '.'], i));
    }
    if contains(s, seq!['.', '.']) {
        let i = choose|i: int| occurs_at(s, seq!['.', '.'], i);
        assert(s.subrange(i, i + 2)[0] == s[i]);
        assert(s.subrange(i, i + 2)[1] == s[i + 1]);
        assert(t.subrange(i, i + 2) =~= seq!['.', '.']);
        assert(occurs_at(t, seq!['.', '.'], i));
    }
}

/// `s` with every `a` replaced by `b`.
pub open spec fn replace_chars(s: Seq<char>, a: char, b: char) -> Seq<char> {
    s.map_values(|c: char| if c == a { b } else { c })
}

proof fn lemma_replace_chars_index(s: Seq<char>, a: char, b: char, i: int)
    requires
        0 <= i < s.len(),
    ensures
        replace_chars(s, a, b)[i] == if s[i] == a { b } else { s[i] },
{
}

proof fn lemma_replace_one_char(s: Seq<char>, a: char, b: char)
    ensures
        replace_all(s, seq![a], seq![b]) == replace_chars(s, a, b),
    decreases s.len(),
{
    if s.len() > 0 {
        lemma_replace_one_char(s.skip(1), a, b);
        assert(starts_with(s, seq![a]) == (s[0] == a)) by {
            if s[0] == a {
                assert(s.take(1) =~= seq![a]);
            }
            if starts_with(s, seq![a]) {
                assert(s.take(1)[0] == s[0]);
            }
        }
        assert(replace_chars(s, a, b) =~= seq![if s[0] == a { b } else { s[0] }] + replace_chars(s.skip(1), a, b));
    } else {
        assert(replace_chars(s, a, b) =~= s);
    }
}

proof fn lemma_statuses_distinct()
    ensures
        "passed"@ != "failed"@,
        "passed"@ != "skipped"@,
        "passed"@ != "todo"@,
        "failed"@ != "skipped"@,
        "failed"@ != "todo"@,
        "skipped"@ != "todo"@,
{
    reveal_strlit("passed");
    reveal_strlit("failed");
    reveal_strlit("skipped");
    reveal_strlit("todo");
    assert("passed"@[0] != "failed"@[0]);
    assert("passed"@[0] != "skipped"@[0]);
    assert("passed"@[0] != "todo"@[0]);
    assert("failed"@[0] != "skipped"@[0]);
    assert("failed"@[0] != "todo"@[0]);
    assert("skipped"@[0] != "todo"@[0]);
}

proof fn lemma_count_monotone(all: Seq<worker::TestResult>, j: int, st: Seq<char>)
    requires
        0 <= j <= all.len(),
    ensures
        count_status(all.take(j), st) <= count_status(all, st),
    decreases all.len() - j,
{
    if j < all.len() {
        lemma_count_monotone(all, j + 1, st);
        lemma_count_prefix(all, j + 1, st);
    } else {
        assert(all.take(j) =~= all);
    }
}

proof fn lemma_count_prefix(all: Seq<worker::TestResult>, k: int, st: Seq<char>)
    requires
        0 < k <= all.len(),
    ensures
        count_status(all.take(k), st) == count_status(all.take(k - 1), st) + if all[k - 1].status@ == st {
            1nat
        } else {
            0nat
        },
{
    assert(all.take(k).drop_last() =~= all.take(k - 1));
}

} // verus!
