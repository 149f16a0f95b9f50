//! What the worker pool decides: how many workers, when a worker is
//! recycled or idle, how results come back in order, and the records a
//! worker sends back.

use vstd::prelude::*;
use crate::text::{chars_of, decimal, digit_chars, fields, fields_of, push_decimal, push_str, string_from_chars};
use crate::paths::{join, join_path};

verus! {

/// Maximum number of tests a worker can run before being recycled
pub const MAX_TESTS_PER_WORKER: u64 = 1000;

/// Default maximum number of workers in the pool
pub const DEFAULT_MAX_WORKERS: usize = 4;

/// Hard ceiling on the pool size, whatever is requested or set in the
/// environment
pub const WORKER_HARD_CAP: usize = 4;

/// How long a worker can be idle before being killed, in nanoseconds (60 s)
pub const WORKER_IDLE_TIMEOUT_NANOS: u128 = 60_000_000_000;

/// Worker configuration passed to each test run
#[derive(Debug, Clone)]
pub struct WorkerConfig {
    pub root_dir: String,
    pub setup_files: Vec<String>,
    pub setup_files_after_env: Vec<String>,
    pub test_timeout: u32,
    pub clear_mocks: bool,
    pub reset_mocks: bool,
    pub restore_mocks: bool,
    pub update_snapshots: bool,
    /// Regex pattern to filter test names
    pub test_name_pattern: Option<String>,
}

/// Result from running a test file
#[derive(Debug, Clone)]
pub struct TestFileResult {
    pub path: String,
    pub passed: bool,
    pub duration_ms: u64,
    pub tests: Vec<TestResult>,
    pub snapshot_summary: Option<SnapshotSummary>,
}

/// Snapshot summary from a test file
#[derive(Debug, Clone, Copy, PartialEq, Eq, Structural)]
pub struct SnapshotSummary {
    pub added: u32,
    pub updated: u32,
    pub matched: u32,
    pub unmatched: u32,
}

impl Default for SnapshotSummary {
    fn default() -> (r: SnapshotSummary)
        ensures
            r.added == 0 && r.updated == 0 && r.matched == 0 && r.unmatched == 0,
    {
        SnapshotSummary { added: 0, updated: 0, matched: 0, unmatched: 0 }
    }
}

/// Result from a single test
#[derive(Debug, Clone)]
pub struct TestResult {
    pub name: String,
    pub status: String,
    pub duration_ms: u64,
    pub error: Option<TestError>,
}

#[derive(Debug, Clone)]
pub struct TestError {
    pub message: String,
    pub stack: Option<String>,
    pub diff: Option<String>,
}

// ---------------------------------------------------------------------
// Reading an unsigned decimal number
// ---------------------------------------------------------------------

pub open spec fn is_digit(c: char) -> bool {
    '0' <= c && c <= '9'
}

pub open spec fn digit_value(c: char) -> nat {
    (c as int - '0' as int) as nat
}

/// The number that a sequence of decimal digits spells.
pub open spec fn decimal_value(d: Seq<char>) -> nat
    decreases d.len(),
{
    if d.len() == 0 {
        0
    } else {
        decimal_value(d.drop_last()) * 10 + digit_value(d.last())
    }
}

/// The digits of `s` after an optional leading `+`.
pub open spec fn unsigned_digits(s: Seq<char>) -> Seq<char> {
    if s.len() > 0 && s[0] == '+' {
        s.skip(1)
    } else {
        s
    }
}

/// What `str::parse::<usize>` gives: an optional `+`, then at least one
/// decimal digit and nothing else, of value at most `usize::MAX`.
pub open spec fn parse_usize_spec(s: Seq<char>) -> Option<usize> {
    let d = unsigned_digits(s);
    if d.len() > 0 && (forall|i: int| 0 <= i < d.len() ==> is_digit(#[trigger] d[i]))
        && decimal_value(d) <= usize::MAX {
        Some(decimal_value(d) as usize)
    } else {
        None
    }
}

proof fn lemma_decimal_prefix_grows(d: Seq<char>, j: int, k: int)
    requires
        0 <= j <= k <= d.len(),
    ensures
        decimal_value(d.take(j)) <= decimal_value(d.take(k)),
    decreases k - j,
{
    if j < k {
        lemma_decimal_prefix_grows(d, j, k - 1);
        assert(d.take(k).drop_last() =~= d.take(k - 1));
    }
}

/// Reads an unsigned decimal number as `str::parse::<usize>` does.
pub fn parse_usize(s: &str) -> (r: Option<usize>)
    ensures
        r == parse_usize_spec(s@),
{
    let cs = chars_of(s);
    let n = cs.len();
    let start: usize = if n > 0 && cs[0] == '+' {
        1
    } else {
        0
    };
    let ghost d = unsigned_digits(s@);
    assert(d =~= cs@.skip(start as int));
    if start >= n {
        return None;
    }
    let mut value: usize = 0;
    let mut i: usize = start;
    assert(d.take(0) =~= Seq::<char>::empty());
    while i < n
        invariant
            start <= i <= n,
            n == cs@.len(),
            d == cs@.skip(start as int),
            d == unsigned_digits(s@),
            cs@ == s@,
            forall|m: int| 0 <= m < i - start ==> is_digit(#[trigger] d[m]),
            value as nat == decimal_value(d.take(i - start)),
        decreases n - i,
    {
        let c = cs[i];
        if !('0' <= c && c <= '9') {
            assert(!is_digit(d[i - start]));
            return None;
        }
        let digit = (c as u32 - '0' as u32) as usize;
        assert(digit as nat == digit_value(c));
        assert(d.take(i - start + 1).drop_last() =~= d.take(i - start));
        let next = match value.checked_mul(10) {
            Some(t) => t.checked_add(digit),
            None => None,
        };
        match next {
            Some(v) => {
                value = v;
            },
            None => {
                proof {
                    lemma_decimal_prefix_grows(d, i - start + 1, d.len() as int);
                    assert(d.take(d.len() as int) =~= d);
                }
                return None;
            },
        }
        i = i + 1;
    }
    assert(d.take(n - start) =~= d);
    Some(value)
}

/// The pool size that the `RJEST_MAX_WORKERS` setting asks for: its value
/// read as a number, or the default when it is absent or not a number.
pub fn get_max_workers_from_env(setting: Option<&str>) -> (r: usize)
    ensures
        r == match setting {
            Some(v) => match parse_usize_spec(v@) {
                Some(n) => n,
                None => DEFAULT_MAX_WORKERS,
            },
            None => DEFAULT_MAX_WORKERS,
        },
{
    match setting {
        Some(v) => match parse_usize(v) {
            Some(n) => n,
            None => DEFAULT_MAX_WORKERS,
        },
        None => DEFAULT_MAX_WORKERS,
    }
}

// ---------------------------------------------------------------------
// Pool decisions
// ---------------------------------------------------------------------

/// The least of what was requested, the environment's limit and the hard
/// cap.
pub open spec fn pool_size(requested: usize, env_max: usize) -> usize {
    let a = if requested < env_max {
        requested
    } else {
        env_max
    };
    if a < WORKER_HARD_CAP {
        a
    } else {
        WORKER_HARD_CAP
    }
}

/// A pool never has more than four workers, whatever is requested and
/// whatever `RJEST_MAX_WORKERS` says, and never more than was requested or
/// set.
pub proof fn law_pool_ceiling(requested: usize, env_max: usize)
    ensures
        pool_size(requested, env_max) <= 4,
        pool_size(requested, DEFAULT_MAX_WORKERS) <= DEFAULT_MAX_WORKERS,
        pool_size(requested, env_max) <= requested,
        pool_size(requested, env_max) <= env_max,
{
}

/// Results come back in the order of their files: when each file's index
/// is reported exactly once, its slot holds the result reported for it,
/// whatever order the reports arrived in.
pub proof fn law_results_in_order<T>(reports: Seq<(usize, T)>, i: int)
    requires
        0 <= i < reports.len(),
        forall|j: int| 0 <= j < reports.len() && j != i ==> (#[trigger] reports[j]).0 != reports[i].0,
    ensures
        last_assigned(reports, reports[i].0 as int) == Some(reports[i].1),
    decreases reports.len(),
{
    if i < reports.len() - 1 {
        assert(reports.last().0 != reports[i].0);
        law_results_in_order(reports.drop_last(), i);
    }
}

/// How many workers a pool gets: the least of what was requested, the
/// environment's limit and the hard cap.
pub fn effective_worker_count(requested: usize, env_max: usize) -> (r: usize)
    ensures
        r == pool_size(requested, env_max),
{
    let a = if requested < env_max {
        requested
    } else {
        env_max
    };
    if a < WORKER_HARD_CAP {
        a
    } else {
        WORKER_HARD_CAP
    }
}

/// A worker is recycled once it has run the maximum number of tests.
pub fn needs_recycle(tests_run: u64) -> (r: bool)
    ensures
        r == (tests_run >= MAX_TESTS_PER_WORKER),
{
    tests_run >= MAX_TESTS_PER_WORKER
}

/// A worker is idle once more than the idle timeout has passed since its
/// last activity.
pub fn is_idle(elapsed_nanos: u128) -> (r: bool)
    ensures
        r == (elapsed_nanos > WORKER_IDLE_TIMEOUT_NANOS),
{
    elapsed_nanos > WORKER_IDLE_TIMEOUT_NANOS
}

/// After idle workers were removed: a new worker is spawned when all were
/// removed although there were some, and the pool allows one.
pub fn respawn_after_cleanup(initial_count: usize, remaining: usize, max_workers: usize) -> (r: bool)
    ensures
        r == (remaining == 0 && initial_count > 0 && remaining < max_workers),
{
    remaining == 0 && initial_count > 0 && remaining < max_workers
}

/// How a batch of `num_tests` test files is run on a pool of
/// `worker_count` workers: the number of workers used (as many as there
/// are tests, at least one) and whether the run is sequential.
pub fn parallel_plan(worker_count: usize, num_tests: usize) -> (r: (usize, bool))
    ensures
        r.0 == if worker_count < num_tests {
            if worker_count < 1 { 1 } else { worker_count }
        } else {
            if num_tests < 1 { 1 } else { num_tests }
        },
        r.1 == (num_tests <= 1 || r.0 <= 1),
{
    let m = if worker_count < num_tests {
        worker_count
    } else {
        num_tests
    };
    let w = if m < 1 {
        1
    } else {
        m
    };
    (w, num_tests <= 1 || w <= 1)
}

/// The value last assigned to slot `k` by the `(slot, value)` pairs of
/// `s`, if any.
pub open spec fn last_assigned<T>(s: Seq<(usize, T)>, k: int) -> Option<T>
    decreases s.len(),
{
    if s.len() == 0 {
        None
    } else if s.last().0 == k {
        Some(s.last().1)
    } else {
        last_assigned(s.drop_last(), k)
    }
}

proof fn lemma_last_assigned_concat<T>(a: Seq<(usize, T)>, b: Seq<(usize, T)>, k: int)
    ensures
        last_assigned(a + b, k) == match last_assigned(b, k) {
            Some(v) => Some(v),
            None => last_assigned(a, k),
        },
    decreases b.len(),
{
    if b.len() == 0 {
        assert(a + b =~= a);
    } else {
        assert((a + b).drop_last() =~= a + b.drop_last());
        lemma_last_assigned_concat(a, b.drop_last(), k);
    }
}

/// Puts results that arrive as `(index, result)` pairs into their slots;
/// a later pair for the same slot replaces an earlier one, and a slot
/// that no pair names stays empty.
pub fn place_results<T>(num_tests: usize, indexed: Vec<(usize, T)>) -> (out: Vec<Option<T>>)
    requires
        forall|i: int| 0 <= i < indexed@.len() ==> (#[trigger] indexed@[i]).0 < num_tests,
    ensures
        out@.len() == num_tests,
        forall|k: int| 0 <= k < num_tests ==> #[trigger] out@[k] == last_assigned(indexed@, k),
{
    let mut out: Vec<Option<T>> = Vec::new();
    let mut k: usize = 0;
    while k < num_tests
        invariant
            k <= num_tests,
            out@.len() == k,
            forall|m: int| 0 <= m < k ==> #[trigger] out@[m] is None,
        decreases num_tests - k,
    {
        out.push(None);
        k = k + 1;
    }
    let ghost all = indexed@;
    let mut rest = indexed;
    assert(all.skip(all.len() as int) =~= Seq::<(usize, T)>::empty());
    while rest.len() > 0
        invariant
            out@.len() == num_tests,
            rest@.len() <= all.len(),
            rest@ == all.take(rest@.len() as int),
            forall|i: int| 0 <= i < all.len() ==> (#[trigger] all[i]).0 < num_tests,
            forall|m: int| 0 <= m < num_tests ==> #[trigger] out@[m] == last_assigned(all.skip(rest@.len() as int), m),
        decreases rest@.len(),
    {
        let ghost r0 = rest@;
        let ghost done = all.skip(r0.len() as int);
        let (idx, val) = rest.pop().unwrap();
        let ghost x = (idx, val);
        assert(r0.last() == all[r0.len() - 1]);
        assert(rest@ =~= all.take(rest@.len() as int));
        assert(all.skip(rest@.len() as int) =~= seq![x] + done);
        proof {
            assert forall|m: int| 0 <= m < num_tests implies last_assigned(seq![x] + done, m) == match last_assigned(done, m) {
                Some(v) => Some(v),
                None => if idx == m { Some(val) } else { None },
            } by {
                lemma_last_assigned_concat(seq![x], done, m);
                assert(seq![x].drop_last() =~= Seq::<(usize, T)>::empty());
                assert(seq![x].last() == x);
                assert(last_assigned(Seq::<(usize, T)>::empty(), m) is None);
            }
        }
        if out[idx].is_none() {
            let ghost before = out@;
            out.set(idx, Some(val));
            assert forall|m: int| 0 <= m < num_tests implies #[trigger] out@[m] == last_assigned(all.skip(rest@.len() as int), m) by {
                if m != idx {
                    assert(out@[m] == before[m]);
                }
            }
        }
    }
    assert(all.skip(0) =~= all);
    out
}


/// What `str::parse::<u64>` gives: an optional `+`, then at least one
/// decimal digit and nothing else, of value at most `u64::MAX`.
pub open spec fn parse_u64_spec(s: Seq<char>) -> Option<u64> {
    let d = unsigned_digits(s);
    if d.len() > 0 && (forall|i: int| 0 <= i < d.len() ==> is_digit(#[trigger] d[i]))
        && decimal_value(d) <= u64::MAX {
        Some(decimal_value(d) as u64)
    } else {
        None
    }
}

/// Reads an unsigned decimal number as `str::parse::<u64>` does.
pub fn parse_u64(s: &Vec<char>) -> (r: Option<u64>)
    ensures
        r == parse_u64_spec(s@),
{
    let n = s.len();
    let start: usize = if n > 0 && s[0] == '+' {
        1
    } else {
        0
    };
    let ghost d = unsigned_digits(s@);
    assert(d =~= s@.skip(start as int));
    if start >= n {
        return None;
    }
    let mut value: u64 = 0;
    let mut i: usize = start;
    assert(d.take(0) =~= Seq::<char>::empty());
    while i < n
        invariant
            start <= i <= n,
            n == s@.len(),
            d == s@.skip(start as int),
            d == unsigned_digits(s@),
            forall|m: int| 0 <= m < i - start ==> is_digit(#[trigger] d[m]),
            value as nat == decimal_value(d.take(i - start)),
        decreases n - i,
    {
        let c = s[i];
        if !('0' <= c && c <= '9') {
            assert(!is_digit(d[i - start]));
            return None;
        }
        let digit = (c as u32 - '0' as u32) as u64;
        assert(digit as nat == digit_value(c));
        assert(d.take(i - start + 1).drop_last() =~= d.take(i - start));
        let next = match value.checked_mul(10) {
            Some(t) => t.checked_add(digit),
            None => None,
        };
        match next {
            Some(v) => {
                value = v;
            },
            None => {
                proof {
                    lemma_decimal_prefix_grows(d, i - start + 1, d.len() as int);
                    assert(d.take(d.len() as int) =~= d);
                }
                return None;
            },
        }
        i = i + 1;
    }
    assert(d.take(n - start) =~= d);
    Some(value)
}

/// The resident pages that `/proc/self/statm` reports: its second field,
/// read as a number.
pub open spec fn statm_pages(content: Seq<char>) -> Option<u64> {
    if fields_of(content).len() > 1 {
        parse_u64_spec(fields_of(content)[1])
    } else {
        None
    }
}

/// The resident pages in the content of `/proc/self/statm`.
pub fn statm_resident_pages(content: &str) -> (r: Option<u64>)
    ensures
        r == statm_pages(content@),
{
    let fs = fields(content);
    if fs.len() > 1 {
        assert(fs@.map_values(|l: Vec<char>| l@)[1] == fs@[1]@);
        parse_u64(&fs[1])
    } else {
        None
    }
}

/// Memory in bytes for a number of pages of 4 KiB.
pub fn pages_to_bytes(pages: u64) -> (r: u64)
    requires
        pages * 4096 <= u64::MAX,
    ensures
        r == pages * 4096,
{
    pages * 4096
}

/// The message when a worker answers with an error: its message, or
/// `Unknown error` when it gives none.
pub fn worker_error_message(message: Option<&str>) -> (r: String)
    ensures
        r@ == "Worker error: "@ + match message {
            Some(m) => m@,
            None => "Unknown error"@,
        },
{
    let mut l: Vec<char> = Vec::new();
    push_str(&mut l, "Worker error: ");
    match message {
        Some(m) => push_str(&mut l, m),
        None => push_str(&mut l, "Unknown error"),
    }
    string_from_chars(&l)
}

/// Where the worker script may lie, relative to the directory of the
/// daemon's executable, in the order they are tried.
pub fn worker_script_candidates(exe_dir: &str) -> (r: Vec<String>)
    ensures
        r@.len() == 3,
        r@[0]@ == join_path(exe_dir@, "../lib/rjest-runtime/src/worker.js"@),
        r@[1]@ == join_path(exe_dir@, "../../crates/rjest-runtime/src/worker.js"@),
        r@[2]@ == join_path(exe_dir@, "worker.js"@),
{
    let mut r: Vec<String> = Vec::new();
    r.push(join(exe_dir, "../lib/rjest-runtime/src/worker.js"));
    r.push(join(exe_dir, "../../crates/rjest-runtime/src/worker.js"));
    r.push(join(exe_dir, "worker.js"));
    r
}

/// Where the worker script lies in a development checkout, relative to
/// the daemon crate's manifest directory.
pub fn dev_worker_script(manifest_dir: &str) -> (r: String)
    ensures
        r@ == join_path(manifest_dir@, "../rjest-runtime/src/worker.js"@),
{
    join(manifest_dir, "../rjest-runtime/src/worker.js")
}

/// The message of a test file whose result never came back, or of all
/// such files when a worker thread panicked.
pub open spec fn missing_result_message(i: int, worker_panicked: bool) -> Seq<char> {
    if worker_panicked {
        "Worker thread panicked"@
    } else {
        "No result for test "@ + decimal(i as nat)
    }
}

/// The results of a parallel run, in order: each slot's result, and for
/// an empty slot an error.
pub fn fill_missing<T>(slots: Vec<Option<Result<T, String>>>, worker_panicked: bool) -> (out: Vec<Result<T, String>>)
    ensures
        out@.len() == slots@.len(),
        forall|i: int| 0 <= i < slots@.len() ==> match #[trigger] slots@[i] {
            Some(r) => out@[i] == r,
            None => out@[i] matches Err(m) && m@ == missing_result_message(i, worker_panicked),
        },
{
    let ghost all = slots@;
    let mut rest = slots;
    let n = rest.len();
    let mut out: Vec<Result<T, String>> = Vec::new();
    let mut i: usize = 0;
    assert(all.skip(0) =~= all);
    while rest.len() > 0
        invariant
            i <= all.len(),
            all.len() == n,
            rest@ == all.skip(i as int),
            out@.len() == i,
            forall|k: int| 0 <= k < i ==> match #[trigger] all[k] {
                Some(r) => out@[k] == r,
                None => out@[k] matches Err(m) && m@ == missing_result_message(k, worker_panicked),
            },
        decreases rest@.len(),
    {
        let slot = rest.remove(0);
        assert(slot == all[i as int]);
        match slot {
            Some(r) => out.push(r),
            None => {
                let m = if worker_panicked {
                    string_from_chars(&chars_of("Worker thread panicked"))
                } else {
                    let mut l: Vec<char> = Vec::new();
                    push_str(&mut l, "No result for test ");
                    push_decimal(&mut l, i as u64);
                    string_from_chars(&l)
                };
                out.push(Err(m));
            },
        }
        i = i + 1;
        assert(rest@ =~= all.skip(i as int));
    }
    out
}


proof fn lemma_decimal_digits(n: nat)
    ensures
        decimal(n).len() > 0,
        forall|i: int| 0 <= i < decimal(n).len() ==> is_digit(#[trigger] decimal(n)[i]),
        decimal_value(decimal(n)) == n,
        decimal(n)[0] != '+',
    decreases n,
{
    let dc = digit_chars();
    assert(dc[0] == '0' && dc[1] == '1' && dc[2] == '2' && dc[3] == '3' && dc[4] == '4');
    assert(dc[5] == '5' && dc[6] == '6' && dc[7] == '7' && dc[8] == '8' && dc[9] == '9');
    assert(forall|k: int| 0 <= k < 10 ==> is_digit(#[trigger] dc[k]) && digit_value(dc[k]) == k);
    if n < 10 {
        assert(decimal(n) == seq![dc[n as int]]);
        assert(decimal(n).drop_last() =~= Seq::<char>::empty());
        assert(decimal_value(Seq::<char>::empty()) == 0);
        assert(decimal(n).last() == dc[n as int]);
        assert(digit_value(dc[n as int]) == n);
    } else {
        lemma_decimal_digits(n / 10);
        let d = decimal(n);
        assert(d == decimal(n / 10).push(dc[(n % 10) as int]));
        assert(d.drop_last() =~= decimal(n / 10));
        assert(d.last() == dc[(n % 10) as int]);
        assert(decimal_value(d) == (n / 10) * 10 + n % 10);
        assert(d[0] == decimal(n / 10)[0]);
    }
}

/// Reading back a written number: the decimal form of any `usize`, as the
/// daemon and the client write numbers, reads as that number.
pub proof fn law_number_round_trip(n: usize)
    ensures
        parse_usize_spec(decimal(n as nat)) == Some(n),
        parse_u64_spec(decimal(n as nat)) == Some(n as u64),
{
    lemma_decimal_digits(n as nat);
    assert(unsigned_digits(decimal(n as nat)) == decimal(n as nat));
}

} // verus!
