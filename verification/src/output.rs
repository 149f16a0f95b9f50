//! How the client shows a test run: as JSON, or as lines for a person to
//! read, with each file's verdict, the failures in detail and a summary.

use vstd::prelude::*;
use crate::args::Args;
use crate::protocol::{
    ErrorCode, ErrorResponse, HealthResponse, RunResponse, SnapshotSummary, TestError, TestFileResult,
    TestResult, TestStatus, WorkerHealth,
};
use crate::text::{chars_of, decimal, ends_with, lines, lines_of, push_decimal, push_str, starts_with, string_from_chars};

verus! {

/// The verdict shown before a file's path.
pub open spec fn verdict(passed: bool) -> Seq<char> {
    if passed {
        "\x1b[32m PASS \x1b[0m"@
    } else {
        "\x1b[31m FAIL \x1b[0m"@
    }
}

/// The icon and colour of a test's status.
pub open spec fn status_mark(s: TestStatus) -> (Seq<char>, Seq<char>) {
    match s {
        TestStatus::Passed => ("\u{2713}"@, "\x1b[32m"@),
        TestStatus::Failed => ("\u{2715}"@, "\x1b[31m"@),
        TestStatus::Skipped => ("\u{25cb}"@, "\x1b[33m"@),
        TestStatus::Todo => ("\u{270e}"@, "\x1b[35m"@),
    }
}

/// The thousandths of a second, written with three digits.
pub open spec fn three_digits(n: nat) -> Seq<char> {
    if n < 10 {
        "00"@ + decimal(n)
    } else if n < 100 {
        "0"@ + decimal(n)
    } else {
        decimal(n)
    }
}

/// The closing line of a report: the run's time in seconds, with three
/// decimals.
pub open spec fn time_line(duration_ms: u64) -> Seq<char> {
    "Time:        "@ + decimal((duration_ms / 1000) as nat) + "."@ + three_digits((duration_ms % 1000) as nat)
        + " s"@
}

/// The closing line of a report, with the run's time in seconds to three
/// decimals.
pub fn report_time_line(duration_ms: u64) -> (r: String)
    ensures
        r@ == time_line(duration_ms),
{
    let mut out: Vec<char> = Vec::new();
    push_str(&mut out, "Time:        ");
    push_decimal(&mut out, duration_ms / 1000);
    push_str(&mut out, ".");
    let frac = duration_ms % 1000;
    if frac < 10 {
        push_str(&mut out, "00");
    } else if frac < 100 {
        push_str(&mut out, "0");
    }
    push_decimal(&mut out, frac);
    push_str(&mut out, " s");
    proof {
        assert(out@ =~= time_line(duration_ms));
    }
    string_from_chars(&out)
}

/// The line of one test in verbose output.
pub open spec fn test_line(t: TestResult) -> Seq<char> {
    let m = status_mark(t.status);
    "  "@ + m.1 + m.0 + " "@ + t.name@ + "\x1b[0m ("@ + decimal(t.duration_ms as nat) + " ms)"@
}

/// The lines of the tests of a file, in order.
pub open spec fn test_lines(tests: Seq<TestResult>) -> Seq<Seq<char>>
    decreases tests.len(),
{
    if tests.len() == 0 {
        seq![]
    } else {
        test_lines(tests.drop_last()).push(test_line(tests.last()))
    }
}

/// The lines of a file: its verdict and path, then, when verbose, a line
/// per test.
pub open spec fn file_lines(f: TestFileResult, verbose: bool) -> Seq<Seq<char>> {
    seq![verdict(f.passed) + " "@ + f.path@] + if verbose {
        test_lines(f.tests@)
    } else {
        seq![]
    }
}

/// The lines of all files, in order.
pub open spec fn files_lines(files: Seq<TestFileResult>, verbose: bool) -> Seq<Seq<char>>
    decreases files.len(),
{
    if files.len() == 0 {
        seq![]
    } else {
        files_lines(files.drop_last(), verbose) + file_lines(files.last(), verbose)
    }
}

/// A line of a diff, green when added, red when removed.
pub open spec fn diff_line(l: Seq<char>) -> Seq<char> {
    if l.len() > 0 && l[0] == '+' {
        "\x1b[32m"@ + l + "\x1b[0m"@
    } else if l.len() > 0 && l[0] == '-' {
        "\x1b[31m"@ + l + "\x1b[0m"@
    } else {
        l
    }
}

/// Each line of `ls` indented by four spaces, after `f` is applied.
pub open spec fn indented(ls: Seq<Seq<char>>, colored: bool) -> Seq<Seq<char>>
    decreases ls.len(),
{
    if ls.len() == 0 {
        seq![]
    } else {
        indented(ls.drop_last(), colored).push(
            "    "@ + if colored {
                diff_line(ls.last())
            } else {
                ls.last()
            },
        )
    }
}

/// The lines that explain an error: its message, its diff and where it
/// happened, each part followed by an empty line.
pub open spec fn error_lines(e: TestError) -> Seq<Seq<char>> {
    indented(lines_of(e.message@), false) + seq![seq![]] + match e.diff {
        Some(d) => indented(lines_of(d@), true) + seq![seq![]],
        None => seq![],
    } + match e.location {
        Some(loc) => seq!["      at "@ + loc.file@ + ":"@ + decimal(loc.line as nat), seq![]],
        None => seq![],
    }
}

/// The lines of one failed test of the file at `path`.
pub open spec fn failure_lines(path: Seq<char>, t: TestResult) -> Seq<Seq<char>> {
    seq!["  \x1b[31m\u{25cf} "@ + path + " > "@ + t.name@ + "\x1b[0m"@, seq![]] + match t.error {
        Some(e) => error_lines(e),
        None => seq![],
    }
}

/// The failure lines of the failed tests among `tests`, in order.
pub open spec fn tests_failure_lines(path: Seq<char>, tests: Seq<TestResult>) -> Seq<Seq<char>>
    decreases tests.len(),
{
    if tests.len() == 0 {
        seq![]
    } else {
        tests_failure_lines(path, tests.drop_last()) + if tests.last().status == TestStatus::Failed {
            failure_lines(path, tests.last())
        } else {
            seq![]
        }
    }
}

/// The failure lines of all files, in order.
pub open spec fn files_failure_lines(files: Seq<TestFileResult>) -> Seq<Seq<char>>
    decreases files.len(),
{
    if files.len() == 0 {
        seq![]
    } else {
        files_failure_lines(files.drop_last()) + tests_failure_lines(files.last().path@, files.last().tests@)
    }
}

/// Some test of some file failed.
pub open spec fn any_failed(files: Seq<TestFileResult>) -> bool {
    exists|i: int, j: int|
        0 <= i < files.len() && 0 <= j < files[i].tests@.len() && (#[trigger] files[i].tests@[j]).status
            == TestStatus::Failed
}

/// The count of a summary line: in red with the passed count after it
/// when some failed, else the passed count in green.
pub open spec fn count_status(failed: u32, passed: u32) -> Seq<char> {
    if failed > 0 {
        "\x1b[31m"@ + decimal(failed as nat) + " failed\x1b[0m, "@ + decimal(passed as nat) + " passed"@
    } else {
        "\x1b[32m"@ + decimal(passed as nat) + " passed\x1b[0m"@
    }
}

/// The parts of the snapshot line.
pub open spec fn snapshot_parts(s: SnapshotSummary) -> Seq<Seq<char>> {
    (if s.matched > 0 { seq![decimal(s.matched as nat) + " passed"@] } else { seq![] })
        + (if s.added > 0 { seq![decimal(s.added as nat) + " added"@] } else { seq![] })
        + (if s.updated > 0 { seq![decimal(s.updated as nat) + " updated"@] } else { seq![] })
        + (if s.unmatched > 0 { seq!["\x1b[31m"@ + decimal(s.unmatched as nat) + " failed\x1b[0m"@] } else { seq![] })
}

/// `parts` joined with `, `.
pub open spec fn joined(parts: Seq<Seq<char>>) -> Seq<char>
    decreases parts.len(),
{
    if parts.len() == 0 {
        seq![]
    } else if parts.len() == 1 {
        parts[0]
    } else {
        joined(parts.drop_last()) + ", "@ + parts.last()
    }
}

/// The summary lines, the time apart: suites, tests, skipped and todo
/// tests when there are any, and the snapshots when any was counted.
pub open spec fn summary_lines(r: RunResponse) -> Seq<Seq<char>> {
    seq![
        "Test Suites: "@ + count_status(r.num_failed_suites, r.num_passed_suites) + ", "@ + decimal(
            (r.num_passed_suites + r.num_failed_suites) as nat,
        ) + " total"@,
        "Tests:       "@ + count_status(r.num_failed_tests, r.num_passed_tests) + ", "@ + decimal(
            (r.num_passed_tests + r.num_failed_tests + r.num_skipped_tests + r.num_todo_tests) as nat,
        ) + " total"@,
    ] + (if r.num_skipped_tests > 0 {
        seq!["Skipped:     "@ + decimal(r.num_skipped_tests as nat)]
    } else {
        seq![]
    }) + (if r.num_todo_tests > 0 {
        seq!["Todo:        "@ + decimal(r.num_todo_tests as nat)]
    } else {
        seq![]
    }) + match r.snapshot_summary {
        Some(s) => if snapshot_parts(s).len() > 0 {
            seq!["Snapshots:   "@ + joined(snapshot_parts(s))]
        } else {
            seq![]
        },
        None => seq![],
    }
}

/// The totals of a report count everything: whatever the response, the
/// lines of its report for a person hold a line that starts with `Tests:`
/// and ends with the number of passed, failed, skipped and todo tests
/// together, followed by ` total`, and one that starts with `Test Suites:`
/// and ends with the number of passed and failed suites, followed by
/// ` total`.
pub proof fn law_totals_count_everything(r: RunResponse, verbose: bool, lines: Seq<String>)
    requires
        line_views(lines) == report_lines(r, verbose),
    ensures
        exists|k: int|
            0 <= k < lines.len() && starts_with(#[trigger] lines[k]@, "Tests:       "@) && ends_with(
                lines[k]@,
                ", "@ + decimal(
                    (r.num_passed_tests + r.num_failed_tests + r.num_skipped_tests + r.num_todo_tests) as nat,
                ) + " total"@,
            ),
        exists|k: int|
            0 <= k < lines.len() && starts_with(#[trigger] lines[k]@, "Test Suites: "@) && ends_with(
                lines[k]@,
                ", "@ + decimal((r.num_passed_suites + r.num_failed_suites) as nat) + " total"@,
            ),
{
    let head = files_lines(r.test_results@, verbose) + (if any_failed(r.test_results@) {
        seq![seq![], "Failures:"@, seq![]] + files_failure_lines(r.test_results@)
    } else {
        seq![]
    }) + seq![seq![]];
    let s = summary_lines(r);
    assert(report_lines(r, verbose) == head + s);
    let k: int = head.len() as int + 1;
    assert(report_lines(r, verbose)[k] == s[1]);
    assert(lines[k]@ == line_views(lines)[k]);
    let pre = "Tests:       "@;
    let mid = count_status(r.num_failed_tests, r.num_passed_tests);
    let suf = ", "@ + decimal(
        (r.num_passed_tests + r.num_failed_tests + r.num_skipped_tests + r.num_todo_tests) as nat,
    ) + " total"@;
    assert(lines[k]@ == pre + mid + suf);
    assert((pre + mid + suf).take(pre.len() as int) =~= pre);
    assert((pre + mid + suf).skip((pre + mid + suf).len() - suf.len()) =~= suf);
    let k0: int = head.len() as int;
    assert(report_lines(r, verbose)[k0] == s[0]);
    assert(lines[k0]@ == line_views(lines)[k0]);
    let pre0 = "Test Suites: "@;
    let mid0 = count_status(r.num_failed_suites, r.num_passed_suites);
    let suf0 = ", "@ + decimal((r.num_passed_suites + r.num_failed_suites) as nat) + " total"@;
    assert(lines[k0]@ == pre0 + mid0 + suf0);
    assert((pre0 + mid0 + suf0).take(pre0.len() as int) =~= pre0);
    assert((pre0 + mid0 + suf0).skip((pre0 + mid0 + suf0).len() - suf0.len()) =~= suf0);
}

/// The lines of the report for a person, up to the time line: the files,
/// the failures when there are any, an empty line, and the summary.
pub open spec fn report_lines(r: RunResponse, verbose: bool) -> Seq<Seq<char>> {
    files_lines(r.test_results@, verbose) + (if any_failed(r.test_results@) {
        seq![seq![], "Failures:"@, seq![]] + files_failure_lines(r.test_results@)
    } else {
        seq![]
    }) + seq![seq![]] + summary_lines(r)
}

/// The counts of a response fit the sums the summary shows.
pub open spec fn summary_fits(r: RunResponse) -> bool {
    &&& r.num_passed_suites + r.num_failed_suites <= u32::MAX
    &&& r.num_passed_tests + r.num_failed_tests + r.num_skipped_tests + r.num_todo_tests <= u32::MAX
}

/// How a run is shown.
pub enum Rendering {
    /// As pretty-printed JSON of the response.
    Json,
    /// As these lines, followed by the time the run took.
    Human(Vec<String>),
}

/// The views of a list of lines.
pub open spec fn line_views(v: Seq<String>) -> Seq<Seq<char>> {
    v.map_values(|s: String| s@)
}

fn emit(out: &mut Vec<String>, line: &Vec<char>)
    ensures
        line_views(final(out)@) == line_views(old(out)@).push(line@),
{
    let s = string_from_chars(line);
    out.push(s);
    assert(line_views(out@) =~= line_views(old(out)@).push(line@));
}

fn emit_empty(out: &mut Vec<String>)
    ensures
        line_views(final(out)@) == line_views(old(out)@).push(seq![]),
{
    let v: Vec<char> = Vec::new();
    assert(v@ =~= Seq::<char>::empty());
    emit(out, &v);
}

fn emit_str(out: &mut Vec<String>, s: &str)
    ensures
        line_views(final(out)@) == line_views(old(out)@).push(s@),
{
    let v = chars_of(s);
    emit(out, &v);
}

fn push_test_line(out: &mut Vec<String>, t: &TestResult)
    ensures
        line_views(final(out)@) == line_views(old(out)@).push(test_line(*t)),
{
    let mut l: Vec<char> = Vec::new();
    push_str(&mut l, "  ");
    match t.status {
        TestStatus::Passed => {
            push_str(&mut l, "\x1b[32m");
            push_str(&mut l, "\u{2713}");
        },
        TestStatus::Failed => {
            push_str(&mut l, "\x1b[31m");
            push_str(&mut l, "\u{2715}");
        },
        TestStatus::Skipped => {
            push_str(&mut l, "\x1b[33m");
            push_str(&mut l, "\u{25cb}");
        },
        TestStatus::Todo => {
            push_str(&mut l, "\x1b[35m");
            push_str(&mut l, "\u{270e}");
        },
    }
    push_str(&mut l, " ");
    push_str(&mut l, t.name.as_str());
    push_str(&mut l, "\x1b[0m (");
    push_decimal(&mut l, t.duration_ms);
    push_str(&mut l, " ms)");
    let ghost m = status_mark(t.status);
    assert(l@ =~= "  "@ + m.1 + m.0 + " "@ + t.name@ + "\x1b[0m ("@ + decimal(t.duration_ms as nat) + " ms)"@);
    emit(out, &l);
}

fn push_file_lines(out: &mut Vec<String>, f: &TestFileResult, verbose: bool)
    ensures
        line_views(final(out)@) == line_views(old(out)@) + file_lines(*f, verbose),
{
    let mut l: Vec<char> = Vec::new();
    if f.passed {
        push_str(&mut l, "\x1b[32m PASS \x1b[0m");
    } else {
        push_str(&mut l, "\x1b[31m FAIL \x1b[0m");
    }
    push_str(&mut l, " ");
    push_str(&mut l, f.path.as_str());
    assert(l@ =~= verdict(f.passed) + " "@ + f.path@);
    emit(out, &l);
    let ghost start = line_views(old(out)@);
    if verbose {
        let mut i: usize = 0;
        while i < f.tests.len()
            invariant
                i <= f.tests@.len(),
                line_views(out@) == start + seq![verdict(f.passed) + " "@ + f.path@] + test_lines(f.tests@.take(i as int)),
            decreases f.tests@.len() - i,
        {
            assert(f.tests@.take(i + 1).drop_last() =~= f.tests@.take(i as int));
            push_test_line(out, &f.tests[i]);
            i = i + 1;
        }
        assert(f.tests@.take(f.tests@.len() as int) =~= f.tests@);
    }
    assert(line_views(out@) =~= start + file_lines(*f, verbose));
}

fn push_indented(out: &mut Vec<String>, text: &str, colored: bool)
    ensures
        line_views(final(out)@) == line_views(old(out)@) + indented(lines_of(text@), colored),
{
    let ls = lines(text);
    let ghost lv = ls@.map_values(|l: Vec<char>| l@);
    let ghost start = line_views(old(out)@);
    let mut i: usize = 0;
    while i < ls.len()
        invariant
            i <= ls@.len(),
            lv == ls@.map_values(|l: Vec<char>| l@),
            lv == lines_of(text@),
            line_views(out@) == start + indented(lv.take(i as int), colored),
        decreases ls@.len() - i,
    {
        let line = &ls[i];
        assert(lv[i as int] == line@);
        assert(lv.take(i + 1).drop_last() =~= lv.take(i as int));
        let mut l: Vec<char> = Vec::new();
        push_str(&mut l, "    ");
        let n = line.len();
        if colored && n > 0 && line[0] == '+' {
            push_str(&mut l, "\x1b[32m");
            push_chars(&mut l, line);
            push_str(&mut l, "\x1b[0m");
        } else if colored && n > 0 && line[0] == '-' {
            push_str(&mut l, "\x1b[31m");
            push_chars(&mut l, line);
            push_str(&mut l, "\x1b[0m");
        } else {
            push_chars(&mut l, line);
        }
        assert(l@ =~= "    "@ + if colored { diff_line(line@) } else { line@ });
        emit(out, &l);
        i = i + 1;
    }
    assert(lv.take(ls@.len() as int) =~= lv);
}

fn push_chars(out: &mut Vec<char>, s: &Vec<char>)
    ensures
        final(out)@ == old(out)@ + s@,
{
    let mut k: usize = 0;
    let ghost start = out@;
    while k < s.len()
        invariant
            k <= s@.len(),
            out@ == start + s@.take(k as int),
        decreases s@.len() - k,
    {
        out.push(s[k]);
        k = k + 1;
        assert(out@ =~= start + s@.take(k as int));
    }
    assert(s@.take(s@.len() as int) =~= s@);
}

fn push_failure(out: &mut Vec<String>, path: &str, t: &TestResult)
    ensures
        line_views(final(out)@) == line_views(old(out)@) + failure_lines(path@, *t),
{
    let ghost start = line_views(old(out)@);
    let mut l: Vec<char> = Vec::new();
    push_str(&mut l, "  \x1b[31m\u{25cf} ");
    push_str(&mut l, path);
    push_str(&mut l, " > ");
    push_str(&mut l, t.name.as_str());
    push_str(&mut l, "\x1b[0m");
    emit(out, &l);
    emit_empty(out);
    let ghost head = seq!["  \x1b[31m\u{25cf} "@ + path@ + " > "@ + t.name@ + "\x1b[0m"@, seq![]];
    assert(line_views(out@) =~= start + head);
    match &t.error {
        Some(e) => {
            push_indented(out, e.message.as_str(), false);
            emit_empty(out);
            let ghost mid = line_views(out@);
            match &e.diff {
                Some(d) => {
                    push_indented(out, d.as_str(), true);
                    emit_empty(out);
                },
                None => {},
            }
            let ghost mid2 = line_views(out@);
            match &e.location {
                Some(loc) => {
                    let mut a: Vec<char> = Vec::new();
                    push_str(&mut a, "      at ");
                    push_str(&mut a, loc.file.as_str());
                    push_str(&mut a, ":");
                    push_decimal(&mut a, loc.line as u64);
                    emit(out, &a);
                    emit_empty(out);
                },
                None => {},
            }
            assert(line_views(out@) =~= start + failure_lines(path@, *t));
        },
        None => {
            assert(line_views(out@) =~= start + failure_lines(path@, *t));
        },
    }
}

/// The lines of the report for a person, up to the time line, which the
/// caller adds from the duration.
pub fn human_report(response: &RunResponse, verbose: bool) -> (r: Vec<String>)
    requires
        summary_fits(*response),
    ensures
        line_views(r@) == report_lines(*response, verbose),
{
    let files = &response.test_results;
    let ghost fv = files@;
    let mut out: Vec<String> = Vec::new();
    let mut i: usize = 0;
    while i < files.len()
        invariant
            i <= fv.len(),
            fv == files@,
            line_views(out@) == files_lines(fv.take(i as int), verbose),
        decreases fv.len() - i,
    {
        assert(fv.take(i + 1).drop_last() =~= fv.take(i as int));
        push_file_lines(&mut out, &files[i], verbose);
        i = i + 1;
    }
    assert(fv.take(fv.len() as int) =~= fv);
    let ghost after_files = line_views(out@);
    let mut failures: Vec<String> = Vec::new();
    let mut any = false;
    let mut k: usize = 0;
    while k < files.len()
        invariant
            k <= fv.len(),
            fv == files@,
            line_views(failures@) == files_failure_lines(fv.take(k as int)),
            any == exists|a: int, b: int|
                0 <= a < k && 0 <= b < fv[a].tests@.len() && (#[trigger] fv[a].tests@[b]).status == TestStatus::Failed,
        decreases fv.len() - k,
    {
        let f = &files[k];
        assert(fv.take(k + 1).drop_last() =~= fv.take(k as int));
        let ghost before = line_views(failures@);
        let ghost any_before = any;
        let mut j: usize = 0;
        while j < f.tests.len()
            invariant
                j <= f.tests@.len(),
                *f == fv[k as int],
                k < fv.len(),
                line_views(failures@) == before + tests_failure_lines(f.path@, f.tests@.take(j as int)),
                any == (any_before || exists|b: int| 0 <= b < j && (#[trigger] f.tests@[b]).status == TestStatus::Failed),
            decreases f.tests@.len() - j,
        {
            assert(f.tests@.take(j + 1).drop_last() =~= f.tests@.take(j as int));
            let t = &f.tests[j];
            if t.status == TestStatus::Failed {
                push_failure(&mut failures, f.path.as_str(), t);
                any = true;
            }
            assert(line_views(failures@) =~= before + tests_failure_lines(f.path@, f.tests@.take(j + 1)));
            j = j + 1;
        }
        assert(f.tests@.take(f.tests@.len() as int) =~= f.tests@);
        assert(line_views(failures@) =~= files_failure_lines(fv.take(k + 1)));
        assert(any == exists|a: int, b: int|
            0 <= a < k + 1 && 0 <= b < fv[a].tests@.len() && (#[trigger] fv[a].tests@[b]).status == TestStatus::Failed) by {
            if any && !any_before {
                let b = choose|b: int| 0 <= b < j && (#[trigger] f.tests@[b]).status == TestStatus::Failed;
                assert(fv[k as int].tests@[b].status == TestStatus::Failed);
            }
        }
        k = k + 1;
    }
    assert(fv.take(fv.len() as int) =~= fv);
    if any {
        emit_empty(&mut out);
        emit_str(&mut out, "Failures:");
        emit_empty(&mut out);
        let ghost before = line_views(out@);
        let ghost fl = line_views(failures@);
        out.append(&mut failures);
        assert(line_views(out@) =~= before + fl);
    }
    let ghost with_failures = line_views(out@);
    emit_empty(&mut out);
    let ghost before_summary = line_views(out@);
    push_summary(&mut out, response);
    assert(line_views(out@) =~= report_lines(*response, verbose));
    out
}

fn push_count_status(l: &mut Vec<char>, failed: u32, passed: u32)
    ensures
        final(l)@ == old(l)@ + count_status(failed, passed),
{
    if failed > 0 {
        push_str(l, "\x1b[31m");
        push_decimal(l, failed as u64);
        push_str(l, " failed\x1b[0m, ");
        push_decimal(l, passed as u64);
        push_str(l, " passed");
    } else {
        push_str(l, "\x1b[32m");
        push_decimal(l, passed as u64);
        push_str(l, " passed\x1b[0m");
    }
    assert(final(l)@ =~= old(l)@ + count_status(failed, passed));
}

fn push_part(parts: &mut Vec<Vec<char>>, pre: &str, n: u32, post: &str)
    ensures
        final(parts)@.map_values(|p: Vec<char>| p@) == old(parts)@.map_values(|p: Vec<char>| p@).push(pre@ + decimal(n as nat) + post@),
{
    let mut p: Vec<char> = Vec::new();
    push_str(&mut p, pre);
    push_decimal(&mut p, n as u64);
    push_str(&mut p, post);
    let ghost pv = p@;
    parts.push(p);
    assert(parts@.map_values(|p: Vec<char>| p@) =~= old(parts)@.map_values(|p: Vec<char>| p@).push(pv));
}

fn push_summary(out: &mut Vec<String>, r: &RunResponse)
    requires
        summary_fits(*r),
    ensures
        line_views(final(out)@) == line_views(old(out)@) + summary_lines(*r),
{
    let ghost start = line_views(old(out)@);
    let mut a: Vec<char> = Vec::new();
    push_str(&mut a, "Test Suites: ");
    push_count_status(&mut a, r.num_failed_suites, r.num_passed_suites);
    push_str(&mut a, ", ");
    push_decimal(&mut a, (r.num_passed_suites + r.num_failed_suites) as u64);
    push_str(&mut a, " total");
    emit(out, &a);
    let mut b: Vec<char> = Vec::new();
    push_str(&mut b, "Tests:       ");
    push_count_status(&mut b, r.num_failed_tests, r.num_passed_tests);
    push_str(&mut b, ", ");
    push_decimal(&mut b, (r.num_passed_tests + r.num_failed_tests + r.num_skipped_tests + r.num_todo_tests) as u64);
    push_str(&mut b, " total");
    emit(out, &b);
    let ghost two = line_views(out@);
    if r.num_skipped_tests > 0 {
        let mut c: Vec<char> = Vec::new();
        push_str(&mut c, "Skipped:     ");
        push_decimal(&mut c, r.num_skipped_tests as u64);
        emit(out, &c);
    }
    let ghost three = line_views(out@);
    if r.num_todo_tests > 0 {
        let mut c: Vec<char> = Vec::new();
        push_str(&mut c, "Todo:        ");
        push_decimal(&mut c, r.num_todo_tests as u64);
        emit(out, &c);
    }
    let ghost four = line_views(out@);
    match &r.snapshot_summary {
        Some(s) => {
            let mut parts: Vec<Vec<char>> = Vec::new();
            if s.matched > 0 {
                push_part(&mut parts, "", s.matched, " passed");
            }
            if s.added > 0 {
                push_part(&mut parts, "", s.added, " added");
            }
            if s.updated > 0 {
                push_part(&mut parts, "", s.updated, " updated");
            }
            if s.unmatched > 0 {
                push_part(&mut parts, "\x1b[31m", s.unmatched, " failed\x1b[0m");
            }
            assert(parts@.map_values(|p: Vec<char>| p@) =~= snapshot_parts(*s)) by {
                reveal_strlit("");
            }
            if parts.len() > 0 {
                let mut c: Vec<char> = Vec::new();
                push_str(&mut c, "Snapshots:   ");
                push_joined(&mut c, &parts);
                emit(out, &c);
            }
        },
        None => {},
    }
    assert(line_views(out@) =~= start + summary_lines(*r));
}

fn push_joined(l: &mut Vec<char>, parts: &Vec<Vec<char>>)
    ensures
        final(l)@ == old(l)@ + joined(parts@.map_values(|p: Vec<char>| p@)),
{
    let ghost pv = parts@.map_values(|p: Vec<char>| p@);
    let ghost start = l@;
    let mut i: usize = 0;
    while i < parts.len()
        invariant
            i <= parts@.len(),
            pv == parts@.map_values(|p: Vec<char>| p@),
            l@ == start + joined(pv.take(i as int)),
        decreases parts@.len() - i,
    {
        assert(pv[i as int] == parts@[i as int]@);
        assert(pv.take(i + 1).drop_last() =~= pv.take(i as int));
        if i > 0 {
            push_str(l, ", ");
        }
        push_chars(l, &parts[i]);
        proof {
            if i == 0 {
                assert(pv.take(1) =~= seq![pv[0]]);
            }
        }
        assert(l@ =~= start + joined(pv.take(i + 1)));
        i = i + 1;
    }
    assert(pv.take(parts@.len() as int) =~= pv);
}

/// How to show a run: as JSON when JSON or machine output is asked for,
/// else as the lines for a person.
pub fn render(response: &RunResponse, args: &Args) -> (r: Rendering)
    requires
        summary_fits(*response),
    ensures
        args.json || args.machine ==> r is Json,
        !(args.json || args.machine) ==> (r matches Rendering::Human(ls) && line_views(ls@) == report_lines(*response, args.verbose)),
{
    if args.json || args.machine {
        Rendering::Json
    } else {
        Rendering::Human(human_report(response, args.verbose))
    }
}


/// How a worker shows in the health report.
pub open spec fn worker_state(w: WorkerHealth) -> Seq<char> {
    if !w.alive {
        "\x1b[31mDEAD\x1b[0m"@
    } else if w.busy {
        "\x1b[33mBUSY\x1b[0m"@
    } else {
        "\x1b[32mIDLE\x1b[0m"@
    }
}

/// The line of a worker in the health report.
pub open spec fn worker_line(w: WorkerHealth) -> Seq<char> {
    "  Worker "@ + decimal(w.id as nat) + ": "@ + worker_state(w) + " - "@ + decimal(w.tests_run as nat)
        + " tests run, idle "@ + decimal(w.idle_secs as nat) + "s"@
}

/// The lines of the workers, in order.
pub open spec fn worker_lines(ws: Seq<WorkerHealth>) -> Seq<Seq<char>>
    decreases ws.len(),
{
    if ws.len() == 0 {
        seq![]
    } else {
        worker_lines(ws.drop_last()).push(worker_line(ws.last()))
    }
}

/// The lines of the issues, in order.
pub open spec fn issue_lines(issues: Seq<String>) -> Seq<Seq<char>>
    decreases issues.len(),
{
    if issues.len() == 0 {
        seq![]
    } else {
        issue_lines(issues.drop_last()).push("  - "@ + issues.last()@)
    }
}

/// The health report of a running daemon: its verdict, version, uptime,
/// response time, memory in KB, resources, the workers when there are
/// any, and the issues when there are any.
pub open spec fn health_lines(h: HealthResponse) -> Seq<Seq<char>> {
    seq![
        if h.healthy {
            "Health: \x1b[32mHEALTHY\x1b[0m"@
        } else {
            "Health: \x1b[31mUNHEALTHY\x1b[0m"@
        },
        seq![],
        "Version:         "@ + h.version@,
        "Uptime:          "@ + decimal(h.uptime_secs as nat) + "s"@,
        "Response time:   "@ + decimal(h.latency_us as nat) + " us"@,
        "Memory:          "@ + decimal((h.memory_bytes / 1024) as nat) + " KB"@,
        seq![],
        "Resources:"@,
        "  Cached projects:  "@ + decimal(h.cached_projects as nat),
        "  Watch sessions:   "@ + decimal(h.watch_sessions as nat),
    ] + (if h.workers@.len() > 0 {
        seq![seq![], "Workers:"@] + worker_lines(h.workers@)
    } else {
        seq![]
    }) + (if h.issues@.len() > 0 {
        seq![seq![], "\x1b[31mIssues:\x1b[0m"@] + issue_lines(h.issues@)
    } else {
        seq![]
    })
}

fn emit_number_line(out: &mut Vec<String>, pre: &str, n: u64, post: &str)
    ensures
        line_views(final(out)@) == line_views(old(out)@).push(pre@ + decimal(n as nat) + post@),
{
    let mut l: Vec<char> = Vec::new();
    push_str(&mut l, pre);
    push_decimal(&mut l, n);
    push_str(&mut l, post);
    emit(out, &l);
}

/// The lines of the health report of a running daemon.
pub fn health_report(h: &HealthResponse) -> (r: Vec<String>)
    ensures
        line_views(r@) == health_lines(*h),
{
    let mut out: Vec<String> = Vec::new();
    if h.healthy {
        emit_str(&mut out, "Health: \x1b[32mHEALTHY\x1b[0m");
    } else {
        emit_str(&mut out, "Health: \x1b[31mUNHEALTHY\x1b[0m");
    }
    emit_empty(&mut out);
    let mut v: Vec<char> = Vec::new();
    push_str(&mut v, "Version:         ");
    push_str(&mut v, h.version.as_str());
    emit(&mut out, &v);
    emit_number_line(&mut out, "Uptime:          ", h.uptime_secs, "s");
    emit_number_line(&mut out, "Response time:   ", h.latency_us, " us");
    emit_number_line(&mut out, "Memory:          ", h.memory_bytes / 1024, " KB");
    emit_empty(&mut out);
    emit_str(&mut out, "Resources:");
    emit_number_line(&mut out, "  Cached projects:  ", h.cached_projects as u64, "");
    emit_number_line(&mut out, "  Watch sessions:   ", h.watch_sessions as u64, "");
    proof {
        reveal_strlit("");
    }
    let ghost head = line_views(out@);
    if h.workers.len() > 0 {
        emit_empty(&mut out);
        emit_str(&mut out, "Workers:");
        let ghost start = line_views(out@);
        let mut i: usize = 0;
        while i < h.workers.len()
            invariant
                i <= h.workers@.len(),
                line_views(out@) == start + worker_lines(h.workers@.take(i as int)),
            decreases h.workers@.len() - i,
        {
            let w = h.workers[i];
            assert(h.workers@.take(i + 1).drop_last() =~= h.workers@.take(i as int));
            let mut l: Vec<char> = Vec::new();
            push_str(&mut l, "  Worker ");
            push_decimal(&mut l, w.id as u64);
            push_str(&mut l, ": ");
            if !w.alive {
                push_str(&mut l, "\x1b[31mDEAD\x1b[0m");
            } else if w.busy {
                push_str(&mut l, "\x1b[33mBUSY\x1b[0m");
            } else {
                push_str(&mut l, "\x1b[32mIDLE\x1b[0m");
            }
            push_str(&mut l, " - ");
            push_decimal(&mut l, w.tests_run);
            push_str(&mut l, " tests run, idle ");
            push_decimal(&mut l, w.idle_secs);
            push_str(&mut l, "s");
            assert(l@ =~= worker_line(w));
            emit(&mut out, &l);
            i = i + 1;
        }
        assert(h.workers@.take(h.workers@.len() as int) =~= h.workers@);
    }
    let ghost mid = line_views(out@);
    if h.issues.len() > 0 {
        emit_empty(&mut out);
        emit_str(&mut out, "\x1b[31mIssues:\x1b[0m");
        let ghost start = line_views(out@);
        let mut i: usize = 0;
        while i < h.issues.len()
            invariant
                i <= h.issues@.len(),
                line_views(out@) == start + issue_lines(h.issues@.take(i as int)),
            decreases h.issues@.len() - i,
        {
            assert(h.issues@.take(i + 1).drop_last() =~= h.issues@.take(i as int));
            let mut l: Vec<char> = Vec::new();
            push_str(&mut l, "  - ");
            push_str(&mut l, h.issues[i].as_str());
            emit(&mut out, &l);
            i = i + 1;
        }
        assert(h.issues@.take(h.issues@.len() as int) =~= h.issues@);
    }
    assert(line_views(out@) =~= health_lines(*h));
    out
}

/// The number of an error code, in the order the codes are declared.
pub open spec fn code_number(c: ErrorCode) -> u8 {
    match c {
        ErrorCode::ConfigError => 0,
        ErrorCode::NoTestsFound => 1,
        ErrorCode::TransformError => 2,
        ErrorCode::WorkerError => 3,
        ErrorCode::InternalError => 4,
        ErrorCode::InvalidRequest => 5,
    }
}

/// The message the client fails with when the daemon answers a run with
/// an error: the code's number, a colon, and the message.
pub fn run_error_message(err: &ErrorResponse) -> (r: String)
    ensures
        r@ == decimal(code_number(err.code) as nat) + ": "@ + err.message@,
{
    let n: u8 = match err.code {
        ErrorCode::ConfigError => 0,
        ErrorCode::NoTestsFound => 1,
        ErrorCode::TransformError => 2,
        ErrorCode::WorkerError => 3,
        ErrorCode::InternalError => 4,
        ErrorCode::InvalidRequest => 5,
    };
    let mut l: Vec<char> = Vec::new();
    push_decimal(&mut l, n as u64);
    push_str(&mut l, ": ");
    push_str(&mut l, err.message.as_str());
    string_from_chars(&l)
}


/// A health check is healthy exactly when every worker is alive: the
/// issues it reports are none then, and one per dead worker otherwise.
pub proof fn law_healthy_iff_all_alive(workers: Seq<WorkerHealth>)
    ensures
        (crate::server::worker_issues(workers).len() == 0) <==> (forall|i: int| 0 <= i < workers.len() ==> (#[trigger] workers[i]).alive),
    decreases workers.len(),
{
    if workers.len() > 0 {
        law_healthy_iff_all_alive(workers.drop_last());
        let rest = workers.drop_last();
        if forall|i: int| 0 <= i < workers.len() ==> (#[trigger] workers[i]).alive {
            assert forall|i: int| 0 <= i < rest.len() implies (#[trigger] rest[i]).alive by {
                assert(rest[i] == workers[i]);
            }
            assert(workers.last() == workers[workers.len() - 1]);
        }
        if crate::server::worker_issues(workers).len() == 0 {
            assert forall|i: int| 0 <= i < workers.len() implies (#[trigger] workers[i]).alive by {
                if i < workers.len() - 1 {
                    assert(rest[i] == workers[i]);
                }
            }
        }
    }
}

} // verus!
