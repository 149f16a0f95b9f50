//! Summaries of benchmark runs: how long the iterations took in total, on
//! average, at least and at most.

use vstd::prelude::*;
use crate::git::{path_parent, std_path_parent};
use crate::text::{chars_of, string_from_chars};
use vstd::arithmetic::div_mod::{
    lemma_div_pos_is_pos, lemma_fundamental_div_mod, lemma_fundamental_div_mod_converse,
    lemma_mod_pos_bound,
};

verus! {

/// Nanoseconds in a second.
pub const NANOS_PER_SEC: u32 = 1_000_000_000;

/// A span of time, as `std::time::Duration` holds it: whole seconds and
/// the nanoseconds beyond them.
#[derive(Debug, Clone, Copy, PartialEq, Eq, Structural)]
pub struct Span {
    pub secs: u64,
    pub nanos: u32,
}

/// The longest span that a `Duration` can hold, in nanoseconds, plus one.
pub open spec fn span_limit() -> int {
    (u64::MAX as int + 1) * NANOS_PER_SEC as int
}

impl Span {
    /// The nanoseconds are below a second.
    pub open spec fn wf(self) -> bool {
        self.nanos < NANOS_PER_SEC
    }

    /// The span in nanoseconds.
    pub open spec fn total(self) -> int {
        self.secs as int * NANOS_PER_SEC as int + self.nanos as int
    }
}

/// The sum of the spans of `s`, in nanoseconds.
pub open spec fn sum_of(s: Seq<Span>) -> int
    decreases s.len(),
{
    if s.len() == 0 {
        0
    } else {
        sum_of(s.drop_last()) + s.last().total()
    }
}

/// Result of a benchmark run
#[derive(Debug, Clone)]
pub struct BenchResult {
    pub name: String,
    pub iterations: u32,
    pub total_time: Span,
    pub avg_time: Span,
    pub min_time: Span,
    pub max_time: Span,
}

/// `a + b`, as adding two `Duration`s gives it.
pub fn add_spans(a: Span, b: Span) -> (r: Span)
    requires
        a.wf(),
        b.wf(),
        a.total() + b.total() < span_limit(),
    ensures
        r.wf(),
        r.total() == a.total() + b.total(),
{
    let n = a.nanos + b.nanos;
    if n >= NANOS_PER_SEC {
        assert(a.secs + b.secs + 1 <= u64::MAX) by (nonlinear_arith)
            requires
                (a.secs as int * 1_000_000_000 + a.nanos as int + b.secs as int * 1_000_000_000 + (b.nanos as int))
                    < (u64::MAX as int + 1) * 1_000_000_000,
                (a.nanos as int + (b.nanos as int)) >= 1_000_000_000,
                b.nanos < 1_000_000_000,
                a.nanos < 1_000_000_000,
        ;
        Span { secs: a.secs + b.secs + 1, nanos: n - NANOS_PER_SEC }
    } else {
        assert(a.secs + b.secs <= u64::MAX) by (nonlinear_arith)
            requires
                (a.secs as int * 1_000_000_000 + a.nanos as int + b.secs as int * 1_000_000_000 + (b.nanos as int))
                    < (u64::MAX as int + 1) * 1_000_000_000,
                b.nanos < 1_000_000_000,
                a.nanos < 1_000_000_000,
        ;
        Span { secs: a.secs + b.secs, nanos: n }
    }
}

/// Dividing a span of `s` seconds and `m` nanoseconds by `n` the way
/// `Duration` does it gives the total divided by `n`, rounded down.
proof fn lemma_span_division(s: int, m: int, n: int)
    requires
        s >= 0,
        0 <= m < 1_000_000_000,
        n > 0,
    ensures
        ({
            let c = s % n;
            let k = (c * 1_000_000_000 + m % n) / n;
            &&& 0 <= c < n
            &&& 0 <= k
            &&& m / n + k < 1_000_000_000
            &&& (s * 1_000_000_000 + m) / n == (s / n) * 1_000_000_000 + m / n + k
        }),
{
    let q = s / n;
    let c = s % n;
    let qn = m / n;
    let rn = m % n;
    lemma_fundamental_div_mod(s, n);
    lemma_fundamental_div_mod(m, n);
    lemma_mod_pos_bound(s, n);
    lemma_mod_pos_bound(m, n);
    lemma_div_pos_is_pos(m, n);
    let rest = c * 1_000_000_000 + rn;
    assert(rest >= 0) by (nonlinear_arith)
        requires
            rest == c * 1_000_000_000 + rn,
            c >= 0,
            rn >= 0,
    ;
    lemma_div_pos_is_pos(rest, n);
    lemma_fundamental_div_mod(rest, n);
    lemma_mod_pos_bound(rest, n);
    let k = rest / n;
    let rr = rest % n;
    let total = s * 1_000_000_000 + m;
    assert(total == (q * 1_000_000_000 + qn + k) * n + rr) by (nonlinear_arith)
        requires
            s == n * q + c,
            m == n * qn + rn,
            rest == n * k + rr,
            rest == c * 1_000_000_000 + rn,
            total == s * 1_000_000_000 + m,
    ;
    lemma_fundamental_div_mod_converse(total, n, q * 1_000_000_000 + qn + k, rr);
    assert(qn + k < 1_000_000_000) by (nonlinear_arith)
        requires
            m == n * qn + rn,
            rest == n * k + rr,
            rest == c * 1_000_000_000 + rn,
            0 <= c < n,
            0 <= rn,
            0 <= rr,
            0 <= m < 1_000_000_000,
            n > 0,
    {
        assert(n * (qn + k) <= m - rn + rest);
        assert(m - rn + rest == m + c * 1_000_000_000);
        assert(m + c * 1_000_000_000 < (c + 1) * 1_000_000_000);
        assert((c + 1) * 1_000_000_000 <= n * 1_000_000_000);
    }
}

/// `d / n`, as dividing a `Duration` by a number gives it: the span's
/// nanoseconds divided by `n`, rounded down.
pub fn div_span(d: Span, n: u32) -> (r: Span)
    requires
        d.wf(),
        n > 0,
    ensures
        r.wf(),
        r.total() == d.total() / n as int,
{
    proof {
        lemma_span_division(d.secs as int, d.nanos as int, n as int);
    }
    let secs = d.secs / (n as u64);
    let extra_secs = d.secs % (n as u64);
    let nanos0 = d.nanos / n;
    let extra_nanos = d.nanos % n;
    assert(extra_secs < n);
    let q = ((extra_secs as u128 * 1_000_000_000u128 + extra_nanos as u128) / (n as u128)) as u64;
    let nanos_total = nanos0 as u64 + q;
    Span { secs, nanos: nanos_total as u32 }
}

/// Summarizes a benchmark of `iterations` runs that took `times`: their
/// total, their average (the total divided by the count, rounded down),
/// and the shortest and longest.
pub fn run_benchmark(name: &str, iterations: u32, times: &[Span]) -> (r: BenchResult)
    requires
        iterations > 0,
        times@.len() == iterations,
        forall|i: int| 0 <= i < times@.len() ==> (#[trigger] times@[i]).wf(),
        sum_of(times@) < span_limit(),
    ensures
        r.name@ == name@,
        r.iterations == iterations,
        r.total_time.wf() && r.total_time.total() == sum_of(times@),
        r.avg_time.wf() && r.avg_time.total() == sum_of(times@) / iterations as int,
        exists|i: int| 0 <= i < times@.len() && times@[i] == r.min_time,
        exists|i: int| 0 <= i < times@.len() && times@[i] == r.max_time,
        forall|i: int| 0 <= i < times@.len() ==> r.min_time.total() <= (#[trigger] times@[i]).total(),
        forall|i: int| 0 <= i < times@.len() ==> r.max_time.total() >= (#[trigger] times@[i]).total(),
        r.min_time.total() <= r.avg_time.total() <= r.max_time.total(),
{
    let mut total = Span { secs: 0, nanos: 0 };
    let mut min = times[0];
    let mut max = times[0];
    let mut i: usize = 0;
    while i < times.len()
        invariant
            i <= times@.len(),
            times@.len() > 0,
            forall|k: int| 0 <= k < times@.len() ==> (#[trigger] times@[k]).wf(),
            sum_of(times@) < span_limit(),
            total.wf(),
            total.total() == sum_of(times@.take(i as int)),
            exists|k: int| 0 <= k < times@.len() && times@[k] == min,
            exists|k: int| 0 <= k < times@.len() && times@[k] == max,
            forall|k: int| 0 <= k < i ==> min.total() <= (#[trigger] times@[k]).total(),
            forall|k: int| 0 <= k < i ==> max.total() >= (#[trigger] times@[k]).total(),
            i == 0 ==> min == times@[0] && max == times@[0],
        decreases times@.len() - i,
    {
        let t = times[i];
        assert(times@.take(i + 1).drop_last() =~= times@.take(i as int));
        proof {
            lemma_sum_prefix(times@, i as int + 1);
        }
        total = add_spans(total, t);
        if t.total_lt(&min) {
            min = t;
        }
        if max.total_lt(&t) {
            max = t;
        }
        i = i + 1;
    }
    assert(times@.take(times@.len() as int) =~= times@);
    let avg = div_span(total, iterations);
    proof {
        law_average_between(times@, min.total(), max.total());
        let n = iterations as int;
        let s = sum_of(times@);
        assert(avg.total() == s / n);
        assert(min.total() <= s / n <= max.total()) by (nonlinear_arith)
            requires
                n > 0,
                n * min.total() <= s,
                s <= n * max.total(),
        {
            assert(s / n * n <= s);
            assert(s < (s / n + 1) * n);
        }
    }
    BenchResult {
        name: string_from_chars(&chars_of(name)),
        iterations,
        total_time: total,
        avg_time: avg,
        min_time: min,
        max_time: max,
    }
}

impl Span {
    /// Whether this span is shorter than `other`.
    pub fn total_lt(&self, other: &Span) -> (r: bool)
        requires
            self.wf(),
            other.wf(),
        ensures
            r == (self.total() < other.total()),
    {
        proof {
            lemma_span_order(*self, *other);
        }
        self.secs < other.secs || (self.secs == other.secs && self.nanos < other.nanos)
    }
}

proof fn lemma_span_order(a: Span, b: Span)
    requires
        a.wf(),
        b.wf(),
    ensures
        (a.total() < b.total()) == (a.secs < b.secs || (a.secs == b.secs && a.nanos < b.nanos)),
{
    if a.secs < b.secs {
        assert(a.total() < b.total()) by (nonlinear_arith)
            requires
                a.secs < b.secs,
                a.nanos < 1_000_000_000,
                a.total() == a.secs * 1_000_000_000 + a.nanos,
                b.total() == b.secs * 1_000_000_000 + b.nanos,
        ;
    } else if a.secs > b.secs {
        assert(a.total() > b.total()) by (nonlinear_arith)
            requires
                a.secs > b.secs,
                b.nanos < 1_000_000_000,
                a.total() == a.secs * 1_000_000_000 + a.nanos,
                b.total() == b.secs * 1_000_000_000 + b.nanos,
        ;
    }
}

proof fn lemma_sum_prefix(s: Seq<Span>, k: int)
    requires
        0 < k <= s.len(),
        forall|i: int| 0 <= i < s.len() ==> (#[trigger] s[i]).wf(),
    ensures
        sum_of(s.take(k)) == sum_of(s.take(k - 1)) + s[k - 1].total(),
        sum_of(s.take(k)) <= sum_of(s),
    decreases s.len() - k,
{
    assert(s.take(k).drop_last() =~= s.take(k - 1));
    if k < s.len() {
        lemma_sum_prefix(s, k + 1);
        assert(s[k].total() >= 0);
    } else {
        assert(s.take(k) =~= s);
    }
}

/// The root of the workspace: two levels above the benchmark crate's
/// manifest directory.
pub fn project_root(manifest_dir: &str) -> (r: String)
    requires
        std_path_parent(manifest_dir@) matches Some(p) && std_path_parent(p) is Some,
    ensures
        r@ == std_path_parent(std_path_parent(manifest_dir@)->0)->0,
{
    let p = path_parent(manifest_dir).unwrap();
    path_parent(p.as_str()).unwrap()
}


/// The root of the workspace, when the manifest directory lies at least
/// two levels deep; `None` otherwise.
pub fn try_project_root(manifest_dir: &str) -> (r: Option<String>)
    ensures
        match std_path_parent(manifest_dir@) {
            Some(p) => match std_path_parent(p) {
                Some(q) => r matches Some(x) && x@ == q,
                None => r is None,
            },
            None => r is None,
        },
{
    match path_parent(manifest_dir) {
        Some(p) => match path_parent(p.as_str()) {
            Some(_) => Some(project_root(manifest_dir)),
            None => None,
        },
        None => None,
    }
}


/// An average lies between the extremes: when every span of a nonempty
/// list lies between `lo` and `hi`, their sum lies between the count
/// times `lo` and the count times `hi`.
pub proof fn law_average_between(times: Seq<Span>, lo: int, hi: int)
    requires
        forall|i: int| 0 <= i < times.len() ==> lo <= (#[trigger] times[i]).total() <= hi,
    ensures
        times.len() * lo <= sum_of(times) <= times.len() * hi,
    decreases times.len(),
{
    if times.len() > 0 {
        let rest = times.drop_last();
        assert forall|i: int| 0 <= i < rest.len() implies lo <= (#[trigger] rest[i]).total() <= hi by {
            assert(rest[i] == times[i]);
        }
        law_average_between(rest, lo, hi);
        assert(times.last() == times[times.len() - 1]);
        assert(times.len() * lo == rest.len() * lo + lo) by (nonlinear_arith)
            requires
                times.len() == rest.len() + 1,
        ;
        assert(times.len() * hi == rest.len() * hi + hi) by (nonlinear_arith)
            requires
                times.len() == rest.len() + 1,
        ;
    }
}

} // verus!
