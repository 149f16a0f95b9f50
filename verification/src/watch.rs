//! Watch mode: which changed files count, and which tests a change
//! affects.

use vstd::prelude::*;
use crate::paths::{
    Component, path_comps, path_eq, stem_or_empty, extension_or_empty, parent_comps, file_name,
    comps_view, components, stem_chars, extension_chars, file_name_of, parent_len, comps_equal,
    chars_equal,
};
use crate::text::{chars_of, contains, contains_exec, copy_strings, trim_end_all};

verus! {

/// The extensions of files whose change matters in watch mode.
pub open spec fn is_source_ext(e: Seq<char>) -> bool {
    ||| e == "js"@
    ||| e == "jsx"@
    ||| e == "ts"@
    ||| e == "tsx"@
    ||| e == "mjs"@
    ||| e == "cjs"@
    ||| e == "mts"@
    ||| e == "cts"@
    ||| e == "json"@
}

/// A file counts as a source file by its extension.
pub open spec fn is_source_path(p: Seq<char>) -> bool {
    is_source_ext(extension_or_empty(path_comps(p)))
}

/// A file counts as a test by its name: it holds `.test.`, `.spec.` or
/// `__tests__`.
pub open spec fn is_test_path(p: Seq<char>) -> bool {
    let name = match file_name(path_comps(p)) {
        Some(n) => n,
        None => seq![],
    };
    contains(name, ".test."@) || contains(name, ".spec."@) || contains(name, "__tests__"@)
}

/// A changed source file affects a test when the test's stem without
/// `.test`/`.spec` is the source's stem, or both sit in the same
/// directory.
pub open spec fn affects(changed: Seq<char>, test: Seq<char>) -> bool {
    let cc = path_comps(changed);
    let tc = path_comps(test);
    ||| trim_end_all(trim_end_all(stem_or_empty(tc), ".test"@), ".spec"@) == stem_or_empty(cc)
    ||| parent_comps(cc) is Some && parent_comps(tc) is Some && parent_comps(cc)->0 == parent_comps(
        tc,
    )->0
}

/// `x` is to be re-run: it is a changed test file, or a test that a
/// changed non-test file affects.
pub open spec fn is_affected(changed: Seq<String>, tests: Seq<String>, x: String) -> bool {
    ||| exists|i: int| 0 <= i < changed.len() && #[trigger] changed[i] == x && is_test_path(x@)
    ||| exists|i: int, j: int|
        0 <= i < changed.len() && 0 <= j < tests.len() && #[trigger] tests[j] == x
            && !is_test_path(#[trigger] changed[i]@) && affects(changed[i]@, x@)
}

/// No two entries of `s` are the same path.
pub open spec fn distinct_paths(s: Seq<String>) -> bool {
    forall|i: int, j: int| 0 <= i < j < s.len() ==> !path_eq(#[trigger] s[i]@, #[trigger] s[j]@)
}

/// Some entry of `s` is the path `x`.
pub open spec fn holds_path(s: Seq<String>, x: Seq<char>) -> bool {
    exists|i: int| 0 <= i < s.len() && path_eq(#[trigger] s[i]@, x)
}

/// `out` is what a watch poll re-runs for the changes `changed` among the
/// tests `tests`: when there are changes but nothing is affected, every
/// test; otherwise the affected tests, each path once, with every changed
/// test file and every test that a changed non-test file affects.
pub open spec fn affected_tests_of(changed: Seq<String>, tests: Seq<String>, out: Seq<String>) -> bool {
    let fallback = !(exists|x: String| is_affected(changed, tests, x)) && changed.len() > 0;
    &&& fallback ==> out == tests
    &&& !fallback ==> {
        &&& distinct_paths(out)
        &&& forall|i: int| 0 <= i < out.len() ==> is_affected(changed, tests, #[trigger] out[i])
        &&& forall|i: int| 0 <= i < changed.len() && is_test_path(#[trigger] changed[i]@) ==> holds_path(out, changed[i]@)
        &&& forall|i: int, j: int|
            0 <= i < changed.len() && 0 <= j < tests.len() && !is_test_path(#[trigger] changed[i]@) && affects(changed[i]@, #[trigger] tests[j]@)
                ==> holds_path(out, tests[j]@)
    }
}

/// Source files are known by their extension: a path is a source file
/// exactly when its extension is `js`, `jsx`, `ts`, `tsx`, `mjs`, `cjs`,
/// `mts`, `cts` or `json`; and among the paths of file events, every one
/// with such an extension is kept as a source change.
pub proof fn law_source_files_by_extension(event_paths: Seq<String>, out: Seq<String>, p: Seq<char>, j: int)
    requires
        forall|jj: int| 0 <= jj < event_paths.len() && is_source_path(#[trigger] event_paths[jj]@) ==> holds_path(out, event_paths[jj]@),
    ensures
        is_source_path(p) == ({
            let e = extension_or_empty(path_comps(p));
            e == "js"@ || e == "jsx"@ || e == "ts"@ || e == "tsx"@ || e == "mjs"@ || e == "cjs"@ || e == "mts"@
                || e == "cts"@ || e == "json"@
        }),
        0 <= j < event_paths.len() && ({
            let e = extension_or_empty(path_comps(event_paths[j]@));
            e == "js"@ || e == "jsx"@ || e == "ts"@ || e == "tsx"@ || e == "mjs"@ || e == "cjs"@ || e == "mts"@
                || e == "cts"@ || e == "json"@
        }) ==> holds_path(out, event_paths[j]@),
{
    if 0 <= j < event_paths.len() {
        assert(is_source_path(event_paths[j]@) ==> holds_path(out, event_paths[j]@));
    }
}

/// Whether a file is a source file, by its extension.
pub fn is_source_file(path: &str) -> (r: bool)
    ensures
        r == is_source_path(path@),
{
    let c = components(path);
    let e = extension_chars(&c);
    chars_equal(&e, &chars_of("js")) || chars_equal(&e, &chars_of("jsx")) || chars_equal(
        &e,
        &chars_of("ts"),
    ) || chars_equal(&e, &chars_of("tsx")) || chars_equal(&e, &chars_of("mjs")) || chars_equal(
        &e,
        &chars_of("cjs"),
    ) || chars_equal(&e, &chars_of("mts")) || chars_equal(&e, &chars_of("cts")) || chars_equal(
        &e,
        &chars_of("json"),
    )
}

/// Whether a file is a test file, by its name.
pub fn is_test_file(path: &str) -> (r: bool)
    ensures
        r == is_test_path(path@),
{
    let c = components(path);
    let empty: Vec<char> = Vec::new();
    let name = match file_name_of(&c) {
        Some(n) => n,
        None => &empty,
    };
    contains_exec(name, &chars_of(".test.")) || contains_exec(name, &chars_of(".spec."))
        || contains_exec(name, &chars_of("__tests__"))
}

/// Adds `s` to `out` unless an equal path is already there.
fn push_unique_path(out: &mut Vec<String>, keys: &mut Vec<Vec<Component>>, s: &String)
    requires
        old(keys)@.len() == old(out)@.len(),
        forall|k: int| 0 <= k < old(out)@.len() ==> comps_view(#[trigger] old(keys)@[k]@) == path_comps(old(out)@[k]@),
        distinct_paths(old(out)@),
    ensures
        final(keys)@.len() == final(out)@.len(),
        forall|k: int| 0 <= k < final(out)@.len() ==> comps_view(#[trigger] final(keys)@[k]@) == path_comps(final(out)@[k]@),
        distinct_paths(final(out)@),
        holds_path(final(out)@, s@),
        final(out)@ == old(out)@ || final(out)@ == old(out)@.push(*s),
{
    let kc = components(s.as_str());
    let kl = kc.len();
    assert(comps_view(kc@).take(kl as int) =~= comps_view(kc@));
    let mut k: usize = 0;
    while k < keys.len()
        invariant
            keys@.len() == out@.len(),
            k <= keys@.len(),
            kl == kc@.len(),
            comps_view(kc@) == path_comps(s@),
            comps_view(kc@).take(kl as int) == comps_view(kc@),
            keys@ == old(keys)@,
            out@ == old(out)@,
            distinct_paths(out@),
            forall|m: int| 0 <= m < out@.len() ==> comps_view(#[trigger] keys@[m]@) == path_comps(out@[m]@),
            forall|m: int| 0 <= m < k ==> !path_eq(#[trigger] out@[m]@, s@),
        decreases keys@.len() - k,
    {
        assert(comps_view(keys@[k as int]@).take(keys@[k as int]@.len() as int) =~= comps_view(keys@[k as int]@));
        if comps_equal(&keys[k], keys[k].len(), &kc, kl) {
            assert(path_eq(out@[k as int]@, s@));
            return;
        }
        k = k + 1;
    }
    let ghost old_out = out@;
    let ghost old_keys = keys@;
    out.push(s.clone());
    keys.push(kc);
    assert(out@[old_out.len() as int] == *s);
    assert(path_eq(out@[old_out.len() as int]@, s@));
    assert forall|m: int| 0 <= m < out@.len() implies comps_view(#[trigger] keys@[m]@) == path_comps(out@[m]@) by {
        if m < old_out.len() {
            assert(keys@[m] == old_keys[m] && out@[m] == old_out[m]);
        }
    }
    assert forall|a: int, b: int| 0 <= a < b < out@.len() implies !path_eq(#[trigger] out@[a]@, #[trigger] out@[b]@) by {
        if b == old_out.len() {
            assert(out@[a] == old_out[a]);
        } else {
            assert(out@[a] == old_out[a] && out@[b] == old_out[b]);
        }
    }
}

/// The source files among the paths of some file events, each path once,
/// in the order first seen.
pub fn collect_source_changes(event_paths: &Vec<String>) -> (out: Vec<String>)
    ensures
        distinct_paths(out@),
        forall|i: int| 0 <= i < out@.len() ==> event_paths@.contains(#[trigger] out@[i]) && is_source_path(out@[i]@),
        forall|j: int| 0 <= j < event_paths@.len() && is_source_path(#[trigger] event_paths@[j]@) ==> holds_path(out@, event_paths@[j]@),
{
    let mut out: Vec<String> = Vec::new();
    let mut keys: Vec<Vec<Component>> = Vec::new();
    let mut j: usize = 0;
    while j < event_paths.len()
        invariant
            j <= event_paths@.len(),
            keys@.len() == out@.len(),
            forall|k: int| 0 <= k < out@.len() ==> comps_view(#[trigger] keys@[k]@) == path_comps(out@[k]@),
            distinct_paths(out@),
            forall|i: int| 0 <= i < out@.len() ==> event_paths@.contains(#[trigger] out@[i]) && is_source_path(out@[i]@),
            forall|jj: int| 0 <= jj < j && is_source_path(#[trigger] event_paths@[jj]@) ==> holds_path(out@, event_paths@[jj]@),
        decreases event_paths@.len() - j,
    {
        let p = &event_paths[j];
        if is_source_file(p.as_str()) {
            let ghost before = out@;
            push_unique_path(&mut out, &mut keys, p);
            assert forall|i: int| 0 <= i < out@.len() implies event_paths@.contains(#[trigger] out@[i]) && is_source_path(out@[i]@) by {
                if i < before.len() {
                    assert(out@[i] == before[i]);
                } else {
                    assert(out@[i] == event_paths@[j as int]);
                }
            }
            assert forall|jj: int| 0 <= jj < j + 1 && is_source_path(#[trigger] event_paths@[jj]@) implies holds_path(out@, event_paths@[jj]@) by {
                if jj < j {
                    assert(holds_path(before, event_paths@[jj]@));
                    let i = choose|i: int| 0 <= i < before.len() && path_eq(#[trigger] before[i]@, event_paths@[jj]@);
                    assert(out@[i] == before[i]);
                }
            }
        }
        j = j + 1;
    }
    out
}

/// What is read once about a test file: its components and its stem
/// without `.test`/`.spec`.
struct TestFacts {
    comps: Vec<Component>,
    base: Vec<char>,
}

fn test_facts(t: &str) -> (r: TestFacts)
    ensures
        comps_view(r.comps@) == path_comps(t@),
        r.base@ == trim_end_all(trim_end_all(stem_or_empty(path_comps(t@)), ".test"@), ".spec"@),
{
    let comps = components(t);
    let stem = stem_chars(&comps);
    let test_suffix = chars_of(".test");
    let spec_suffix = chars_of(".spec");
    proof {
        reveal_strlit(".test");
        reveal_strlit(".spec");
    }
    let a = crate::text::trim_end_all_exec(&stem, &test_suffix);
    let base = crate::text::trim_end_all_exec(&a, &spec_suffix);
    TestFacts { comps, base }
}

fn affects_exec(
    cc: &Vec<Component>,
    cstem: &Vec<char>,
    tf: &TestFacts,
    Ghost(changed): Ghost<Seq<char>>,
    Ghost(test): Ghost<Seq<char>>,
) -> (r: bool)
    requires
        comps_view(cc@) == path_comps(changed),
        cstem@ == stem_or_empty(path_comps(changed)),
        comps_view(tf.comps@) == path_comps(test),
        tf.base@ == trim_end_all(trim_end_all(stem_or_empty(path_comps(test)), ".test"@), ".spec"@),
    ensures
        r == affects(changed, test),
{
    if chars_equal(&tf.base, cstem) {
        return true;
    }
    let cl = cc.len();
    let tl = tf.comps.len();
    assert(comps_view(cc@).take(cl as int) =~= comps_view(cc@));
    assert(comps_view(tf.comps@).take(tl as int) =~= comps_view(tf.comps@));
    match (parent_len(cc, cl), parent_len(&tf.comps, tl)) {
        (Some(cp), Some(tp)) => comps_equal(cc, cp, &tf.comps, tp),
        _ => false,
    }
}

/// The tests to re-run after `changed_files` changed: each changed test
/// file, and each test that a changed non-test file affects, every path
/// once. When nothing is affected although files changed, all tests.
pub fn get_affected_tests(changed_files: &[String], all_test_files: &[String]) -> (out: Vec<String>)
    ensures
        affected_tests_of(changed_files@, all_test_files@, out@),
{
    let ghost changed = changed_files@;
    let ghost tests = all_test_files@;
    let mut facts: Vec<TestFacts> = Vec::new();
    let mut t: usize = 0;
    while t < all_test_files.len()
        invariant
            t <= tests.len(),
            tests == all_test_files@,
            facts@.len() == t,
            forall|k: int| 0 <= k < t ==> comps_view(#[trigger] facts@[k].comps@) == path_comps(tests[k]@),
            forall|k: int| 0 <= k < t ==> (#[trigger] facts@[k]).base@ == trim_end_all(trim_end_all(stem_or_empty(path_comps(tests[k]@)), ".test"@), ".spec"@),
        decreases tests.len() - t,
    {
        facts.push(test_facts(all_test_files[t].as_str()));
        t = t + 1;
    }
    let mut out: Vec<String> = Vec::new();
    let mut keys: Vec<Vec<Component>> = Vec::new();
    let mut i: usize = 0;
    while i < changed_files.len()
        invariant
            i <= changed.len(),
            changed == changed_files@,
            tests == all_test_files@,
            facts@.len() == tests.len(),
            forall|k: int| 0 <= k < tests.len() ==> comps_view(#[trigger] facts@[k].comps@) == path_comps(tests[k]@),
            forall|k: int| 0 <= k < tests.len() ==> (#[trigger] facts@[k]).base@ == trim_end_all(trim_end_all(stem_or_empty(path_comps(tests[k]@)), ".test"@), ".spec"@),
            keys@.len() == out@.len(),
            forall|k: int| 0 <= k < out@.len() ==> comps_view(#[trigger] keys@[k]@) == path_comps(out@[k]@),
            distinct_paths(out@),
            forall|k: int| 0 <= k < out@.len() ==> is_affected(changed, tests, #[trigger] out@[k]),
            forall|a: int| 0 <= a < i && is_test_path(#[trigger] changed[a]@) ==> holds_path(out@, changed[a]@),
            forall|a: int, b: int|
                0 <= a < i && 0 <= b < tests.len() && !is_test_path(#[trigger] changed[a]@) && affects(changed[a]@, #[trigger] tests[b]@)
                    ==> holds_path(out@, tests[b]@),
        decreases changed.len() - i,
    {
        let c = &changed_files[i];
        let ghost before = out@;
        if is_test_file(c.as_str()) {
            push_unique_path(&mut out, &mut keys, c);
            assert(is_affected(changed, tests, changed[i as int]));
            assert forall|k: int| 0 <= k < out@.len() implies is_affected(changed, tests, #[trigger] out@[k]) by {
                if k < before.len() {
                    assert(out@[k] == before[k]);
                }
            }
            assert forall|a: int| 0 <= a < i + 1 && is_test_path(#[trigger] changed[a]@) implies holds_path(out@, changed[a]@) by {
                if a < i {
                    assert(holds_path(before, changed[a]@));
                    let m = choose|m: int| 0 <= m < before.len() && path_eq(#[trigger] before[m]@, changed[a]@);
                    assert(out@[m] == before[m]);
                }
            }
            assert forall|a: int, b: int|
                0 <= a < i + 1 && 0 <= b < tests.len() && !is_test_path(#[trigger] changed[a]@) && affects(changed[a]@, #[trigger] tests[b]@)
                    implies holds_path(out@, tests[b]@) by {
                assert(holds_path(before, tests[b]@));
                let m = choose|m: int| 0 <= m < before.len() && path_eq(#[trigger] before[m]@, tests[b]@);
                assert(out@[m] == before[m]);
            }
        } else {
            let cc = components(c.as_str());
            let cstem = stem_chars(&cc);
            let mut j: usize = 0;
            while j < all_test_files.len()
                invariant
                    i < changed.len(),
                    j <= tests.len(),
                    changed == changed_files@,
                    tests == all_test_files@,
                    !is_test_path(changed[i as int]@),
                    comps_view(cc@) == path_comps(changed[i as int]@),
                    cstem@ == stem_or_empty(path_comps(changed[i as int]@)),
                    facts@.len() == tests.len(),
                    forall|k: int| 0 <= k < tests.len() ==> comps_view(#[trigger] facts@[k].comps@) == path_comps(tests[k]@),
                    forall|k: int| 0 <= k < tests.len() ==> (#[trigger] facts@[k]).base@ == trim_end_all(trim_end_all(stem_or_empty(path_comps(tests[k]@)), ".test"@), ".spec"@),
                    keys@.len() == out@.len(),
                    forall|k: int| 0 <= k < out@.len() ==> comps_view(#[trigger] keys@[k]@) == path_comps(out@[k]@),
                    distinct_paths(out@),
                    forall|k: int| 0 <= k < out@.len() ==> is_affected(changed, tests, #[trigger] out@[k]),
                    forall|a: int| 0 <= a < i && is_test_path(#[trigger] changed[a]@) ==> holds_path(out@, changed[a]@),
                    forall|a: int, b: int|
                        0 <= a < i && 0 <= b < tests.len() && !is_test_path(#[trigger] changed[a]@) && affects(changed[a]@, #[trigger] tests[b]@)
                            ==> holds_path(out@, tests[b]@),
                    forall|b: int| 0 <= b < j && affects(changed[i as int]@, #[trigger] tests[b]@) ==> holds_path(out@, tests[b]@),
                decreases tests.len() - j,
            {
                let hit = affects_exec(&cc, &cstem, &facts[j], Ghost(changed[i as int]@), Ghost(tests[j as int]@));
                if hit {
                    let ghost prev = out@;
                    push_unique_path(&mut out, &mut keys, &all_test_files[j]);
                    assert(is_affected(changed, tests, tests[j as int]));
                    assert forall|k: int| 0 <= k < out@.len() implies is_affected(changed, tests, #[trigger] out@[k]) by {
                        if k < prev.len() {
                            assert(out@[k] == prev[k]);
                        }
                    }
                    assert forall|x: Seq<char>| holds_path(prev, x) implies holds_path(out@, x) by {
                        let m = choose|m: int| 0 <= m < prev.len() && path_eq(#[trigger] prev[m]@, x);
                        assert(out@[m] == prev[m]);
                    }
                }
                j = j + 1;
            }
            assert forall|a: int| 0 <= a < i + 1 && is_test_path(#[trigger] changed[a]@) implies holds_path(out@, changed[a]@) by {
            }
        }
        i = i + 1;
    }
    if out.len() == 0 && changed_files.len() > 0 {
        assert(!(exists|x: String| is_affected(changed, tests, x))) by {
            if exists|x: String| is_affected(changed, tests, x) {
                let x = choose|x: String| is_affected(changed, tests, x);
                if exists|a: int| 0 <= a < changed.len() && #[trigger] changed[a] == x && is_test_path(x@) {
                    let a = choose|a: int| 0 <= a < changed.len() && #[trigger] changed[a] == x && is_test_path(x@);
                    assert(holds_path(out@, changed[a]@));
                } else {
                    let (a, b) = choose|a: int, b: int|
                        0 <= a < changed.len() && 0 <= b < tests.len() && #[trigger] tests[b] == x
                            && !is_test_path(#[trigger] changed[a]@) && affects(changed[a]@, x@);
                    assert(holds_path(out@, tests[b]@));
                }
            }
        }
        return copy_strings(all_test_files);
    }
    assert(out@.len() > 0 ==> is_affected(changed, tests, out@[0]));
    out
}

} // verus!
