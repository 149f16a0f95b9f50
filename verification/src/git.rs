//! Which test files a set of changed files concerns, and how the output of
//! the git commands that find those changed files is read.

use vstd::prelude::*;
use crate::paths::{
    Comp, Component, path_comps, path_eq, stem_or_empty, extension_or_empty, parent_comps,
    comps_starts_with, comps_ends_with, comps_view, components, stem_chars, extension_chars,
    comps_equal, comps_starts_with_exec, ends_with_name, parent_len, chars_equal,
    sorted_dedup_of, sort_dedup_paths, join, join_path, has_path,
};
use crate::text::str_equal;
use crate::text::{
    chars_of, trim_end_all, trim_end_all_exec, lines, lines_of, trim_ws, trim_chars, last_piece,
    last_piece_exec, starts_with, starts_with_exec, string_from_chars,
};

verus! {

broadcast use vstd::seq_lib::group_seq_properties;

/// The extensions of script sources whose change can affect a test.
pub open spec fn is_script_ext(e: Seq<char>) -> bool {
    ||| e == "js"@
    ||| e == "jsx"@
    ||| e == "ts"@
    ||| e == "tsx"@
    ||| e == "mjs"@
    ||| e == "cjs"@
}

/// The stem of a test file with trailing `.test` and then `.spec`
/// suffixes removed: `foo.test.ts` gives `foo`.
pub open spec fn test_base_name(c: Seq<Comp>) -> Seq<char> {
    trim_end_all(trim_end_all(stem_or_empty(c), ".test"@), ".spec"@)
}

/// The directory of a changed file and that of a test are related: the
/// same, one inside the other, or the test sits in a `__tests__`
/// directory whose parent is the changed file's directory.
pub open spec fn dirs_related(cd: Seq<Comp>, td: Seq<Comp>) -> bool {
    ||| cd == td
    ||| comps_starts_with(td, cd)
    ||| comps_starts_with(cd, td)
    ||| comps_ends_with(td, seq![Comp::Normal("__tests__"@)]) && parent_comps(td) == Some(cd)
}

/// A changed script file concerns a test when its stem is the test's base
/// name or their directories are related.
pub open spec fn change_relates(changed: Seq<char>, test: Seq<char>) -> bool {
    let cc = path_comps(changed);
    let tc = path_comps(test);
    &&& is_script_ext(extension_or_empty(cc))
    &&& {
        ||| stem_or_empty(cc) == test_base_name(tc)
        ||| parent_comps(cc) is Some && parent_comps(tc) is Some && dirs_related(
            parent_comps(cc)->0,
            parent_comps(tc)->0,
        )
    }
}

/// A test is related to the changes when it changed itself or some changed
/// file concerns it.
pub open spec fn is_related_test(changed: Seq<String>, test: String) -> bool {
    ||| exists|i: int| 0 <= i < changed.len() && path_eq(#[trigger] changed[i]@, test@)
    ||| exists|i: int| 0 <= i < changed.len() && change_relates(#[trigger] changed[i]@, test@)
}

/// What is read once about a path.
struct PathFacts {
    comps: Vec<Component>,
    stem: Vec<char>,
    ext: Vec<char>,
}

impl PathFacts {
    spec fn describes(&self, s: Seq<char>) -> bool {
        &&& comps_view(self.comps@) == path_comps(s)
        &&& self.stem@ == stem_or_empty(path_comps(s))
        &&& self.ext@ == extension_or_empty(path_comps(s))
    }

    fn of(s: &str) -> (r: PathFacts)
        ensures
            r.describes(s@),
    {
        let comps = components(s);
        let stem = stem_chars(&comps);
        let ext = extension_chars(&comps);
        PathFacts { comps, stem, ext }
    }
}

fn is_script_ext_exec(e: &Vec<char>) -> (r: bool)
    ensures
        r == is_script_ext(e@),
{
    chars_equal(e, &chars_of("js")) || chars_equal(e, &chars_of("jsx")) || chars_equal(
        e,
        &chars_of("ts"),
    ) || chars_equal(e, &chars_of("tsx")) || chars_equal(e, &chars_of("mjs")) || chars_equal(
        e,
        &chars_of("cjs"),
    )
}

fn test_base_name_exec(stem: &Vec<char>) -> (r: Vec<char>)
    ensures
        r@ == trim_end_all(trim_end_all(stem@, ".test"@), ".spec"@),
{
    let test_suffix = chars_of(".test");
    let spec_suffix = chars_of(".spec");
    proof {
        reveal_strlit(".test");
        reveal_strlit(".spec");
    }
    let a = trim_end_all_exec(stem, &test_suffix);
    trim_end_all_exec(&a, &spec_suffix)
}

fn dirs_related_exec(c: &Vec<Component>, clen: usize, t: &Vec<Component>, tlen: usize, tests_dir: &Vec<char>) -> (r: bool)
    requires
        clen <= c@.len(),
        tlen <= t@.len(),
        tests_dir@ == "__tests__"@,
    ensures
        r == dirs_related(comps_view(c@).take(clen as int), comps_view(t@).take(tlen as int)),
{
    if comps_equal(c, clen, t, tlen) || comps_starts_with_exec(t, tlen, c, clen)
        || comps_starts_with_exec(c, clen, t, tlen) {
        return true;
    }
    if ends_with_name(t, tlen, tests_dir) {
        match parent_len(t, tlen) {
            Some(pl) => {
                assert(comps_view(t@).take(tlen as int).take(pl as int) =~= comps_view(t@).take(pl as int));
                comps_equal(t, pl, c, clen)
            },
            None => false,
        }
    } else {
        false
    }
}

fn change_relates_exec(
    cf: &PathFacts,
    tf: &PathFacts,
    tbase: &Vec<char>,
    tests_dir: &Vec<char>,
    Ghost(changed): Ghost<Seq<char>>,
    Ghost(test): Ghost<Seq<char>>,
) -> (r: bool)
    requires
        cf.describes(changed),
        tf.describes(test),
        tbase@ == test_base_name(path_comps(test)),
        tests_dir@ == "__tests__"@,
    ensures
        r == change_relates(changed, test),
{
    if !is_script_ext_exec(&cf.ext) {
        return false;
    }
    if chars_equal(&cf.stem, tbase) {
        return true;
    }
    let cl = cf.comps.len();
    let tl = tf.comps.len();
    assert(comps_view(cf.comps@).take(cl as int) =~= comps_view(cf.comps@));
    assert(comps_view(tf.comps@).take(tl as int) =~= comps_view(tf.comps@));
    let cp = parent_len(&cf.comps, cl);
    let tp = parent_len(&tf.comps, tl);
    match (cp, tp) {
        (Some(cp), Some(tp)) => dirs_related_exec(&cf.comps, cp, &tf.comps, tp, tests_dir),
        _ => false,
    }
}

/// Of `all_test_files`, those that changed themselves or that a changed
/// script file concerns (same stem, related directory), sorted in path
/// order with equal paths removed.
#[verifier::spinoff_prover]
#[verifier::rlimit(80)]
pub fn find_related_test_files(changed_files: &[String], all_test_files: &[String]) -> (related: Vec<String>)
    ensures
        sorted_dedup_of(
            related@,
            all_test_files@.filter(|t: String| is_related_test(changed_files@, t)),
        ),
{
    let tests_dir = chars_of("__tests__");
    let mut changed: Vec<PathFacts> = Vec::new();
    let mut i: usize = 0;
    while i < changed_files.len()
        invariant
            i <= changed_files@.len(),
            changed@.len() == i,
            forall|k: int| 0 <= k < i ==> (#[trigger] changed@[k]).describes(changed_files@[k]@),
        decreases changed_files@.len() - i,
    {
        changed.push(PathFacts::of(changed_files[i].as_str()));
        i = i + 1;
    }
    let ghost pred = |t: String| is_related_test(changed_files@, t);
    let mut picked: Vec<String> = Vec::new();
    let mut j: usize = 0;
    while j < all_test_files.len()
        invariant
            j <= all_test_files@.len(),
            changed@.len() == changed_files@.len(),
            forall|k: int| 0 <= k < changed@.len() ==> (#[trigger] changed@[k]).describes(changed_files@[k]@),
            tests_dir@ == "__tests__"@,
            pred == (|t: String| is_related_test(changed_files@, t)),
            picked@ == all_test_files@.take(j as int).filter(pred),
        decreases all_test_files@.len() - j,
    {
        let test = &all_test_files[j];
        let tf = PathFacts::of(test.as_str());
        let tbase = test_base_name_exec(&tf.stem);
        let mut hit = false;
        let mut k: usize = 0;
        while k < changed.len()
            invariant
                k <= changed@.len(),
                changed@.len() == changed_files@.len(),
                forall|m: int| 0 <= m < changed@.len() ==> (#[trigger] changed@[m]).describes(changed_files@[m]@),
                tf.describes(test@),
                tbase@ == test_base_name(path_comps(test@)),
                tests_dir@ == "__tests__"@,
                hit == exists|m: int| 0 <= m < k && (path_eq(#[trigger] changed_files@[m]@, test@) || change_relates(changed_files@[m]@, test@)),
            decreases changed@.len() - k,
        {
            let cf = &changed[k];
            let cl = cf.comps.len();
            let tl = tf.comps.len();
            assert(comps_view(cf.comps@).take(cl as int) =~= comps_view(cf.comps@));
            assert(comps_view(tf.comps@).take(tl as int) =~= comps_view(tf.comps@));
            let same = comps_equal(&cf.comps, cl, &tf.comps, tl);
            let rel = change_relates_exec(cf, &tf, &tbase, &tests_dir, Ghost(changed_files@[k as int]@), Ghost(test@));
            if same || rel {
                hit = true;
            }
            proof {
                if same || rel {
                    assert(path_eq(changed_files@[k as int]@, test@) || change_relates(changed_files@[k as int]@, test@));
                }
            }
            k = k + 1;
        }
        assert(hit == is_related_test(changed_files@, *test)) by {
            if is_related_test(changed_files@, *test) {
                if exists|m: int| 0 <= m < changed_files@.len() && path_eq(#[trigger] changed_files@[m]@, test@) {
                    let m = choose|m: int| 0 <= m < changed_files@.len() && path_eq(#[trigger] changed_files@[m]@, test@);
                    assert(path_eq(changed_files@[m]@, test@) || change_relates(changed_files@[m]@, test@));
                } else {
                    let m = choose|m: int| 0 <= m < changed_files@.len() && change_relates(#[trigger] changed_files@[m]@, test@);
                    assert(path_eq(changed_files@[m]@, test@) || change_relates(changed_files@[m]@, test@));
                }
            }
        }
        proof {
            assert(all_test_files@.take(j + 1) =~= all_test_files@.take(j as int).push(*test));
            all_test_files@.take(j as int).lemma_filter_push(*test, pred);
        }
        if hit {
            picked.push(test.clone());
        }
        j = j + 1;
    }
    assert(all_test_files@.take(all_test_files@.len() as int) =~= all_test_files@);
    sort_dedup_paths(&picked)
}


/// Which changed files can concern a test by name or place: exactly the
/// script sources, those whose extension is `js`, `jsx`, `ts`, `tsx`,
/// `mjs` or `cjs`; a change to any other file concerns no test it is not
/// itself.
pub proof fn law_script_extensions(changed: Seq<char>)
    ensures
        is_script_ext(extension_or_empty(path_comps(changed))) == ({
            let e = extension_or_empty(path_comps(changed));
            e == "js"@ || e == "jsx"@ || e == "ts"@ || e == "tsx"@ || e == "mjs"@ || e == "cjs"@
        }),
        forall|test: Seq<char>| #[trigger] change_relates(changed, test) ==> ({
            let e = extension_or_empty(path_comps(changed));
            e == "js"@ || e == "jsx"@ || e == "ts"@ || e == "tsx"@ || e == "mjs"@ || e == "cjs"@
        }),
{
}

/// A changed script source picks the tests named after it: when a changed
/// file has the extension `js`, `jsx`, `ts`, `tsx`, `mjs` or `cjs` and its
/// stem is a test's stem without trailing `.test` and `.spec`, the related
/// tests found for those changes hold that test.
pub proof fn law_script_change_picks_named_test(
    changed_files: Seq<String>,
    all_test_files: Seq<String>,
    related: Seq<String>,
    i: int,
    j: int,
)
    requires
        sorted_dedup_of(related, all_test_files.filter(|t: String| is_related_test(changed_files, t))),
        0 <= i < changed_files.len(),
        0 <= j < all_test_files.len(),
        ({
            let e = extension_or_empty(path_comps(changed_files[i]@));
            e == "js"@ || e == "jsx"@ || e == "ts"@ || e == "tsx"@ || e == "mjs"@ || e == "cjs"@
        }),
        stem_or_empty(path_comps(changed_files[i]@)) == trim_end_all(
            trim_end_all(stem_or_empty(path_comps(all_test_files[j]@)), ".test"@),
            ".spec"@,
        ),
    ensures
        has_path(related, all_test_files[j]@),
{
    let pred = |t: String| is_related_test(changed_files, t);
    law_script_extensions(changed_files[i]@);
    assert(change_relates(changed_files[i]@, all_test_files[j]@));
    assert(pred(all_test_files[j]));
    all_test_files.lemma_filter_contains(pred, j);
    let f = all_test_files.filter(pred);
    let k = choose|k: int| 0 <= k < f.len() && f[k] == all_test_files[j];
    assert(has_path(related, f[k]@));
}

// ---------------------------------------------------------------------
// Reading what git prints
// ---------------------------------------------------------------------

/// The number of bytes of `c` in UTF-8.
pub open spec fn utf8_len(c: char) -> nat {
    let v = c as u32;
    if v < 0x80 {
        1
    } else if v < 0x800 {
        2
    } else if v < 0x10000 {
        3
    } else {
        4
    }
}

/// The number of bytes of `s` in UTF-8.
pub open spec fn utf8_bytes(s: Seq<char>) -> nat
    decreases s.len(),
{
    if s.len() == 0 {
        0
    } else {
        utf8_bytes(s.drop_last()) + utf8_len(s.last())
    }
}

/// The number of characters that make up the first three bytes of
/// `line`, or -1 when the third byte ends inside a character.
pub open spec fn three_byte_cut(line: Seq<char>) -> int {
    if line.len() >= 1 && utf8_bytes(line.take(1)) == 3 {
        1
    } else if line.len() >= 2 && utf8_bytes(line.take(2)) == 3 {
        2
    } else if line.len() >= 3 && utf8_bytes(line.take(3)) == 3 {
        3
    } else {
        -1
    }
}

/// A line of `git status --porcelain` output can be read: it is at most
/// three bytes long, or its fourth byte starts a character (the status
/// code and the space after it take the first three).
pub open spec fn status_line_readable(line: Seq<char>) -> bool {
    utf8_bytes(line) > 3 ==> three_byte_cut(line) >= 1
}

/// Every line of `out` can be read as a status line.
pub open spec fn status_output_readable(out: Seq<char>) -> bool {
    forall|i: int| 0 <= i < lines_of(out).len() ==> status_line_readable(#[trigger] lines_of(out)[i])
}

/// The file a status line names: after the three bytes of the status
/// code, the new name of a rename (what follows the last ` -> `), without
/// surrounding whitespace. A line of three bytes or fewer names none.
pub open spec fn status_entry(line: Seq<char>) -> Option<Seq<char>> {
    if utf8_bytes(line) > 3 {
        Some(trim_ws(last_piece(line.skip(three_byte_cut(line)), " -> "@)))
    } else {
        None
    }
}

/// The paths, under `root`, of the files that status lines name.
pub open spec fn status_paths_of(lines: Seq<Seq<char>>, root: Seq<char>) -> Seq<Seq<char>>
    decreases lines.len(),
{
    if lines.len() == 0 {
        seq![]
    } else {
        let rest = status_paths_of(lines.drop_last(), root);
        match status_entry(lines.last()) {
            Some(f) => rest.push(join_path(root, f)),
            None => rest,
        }
    }
}

/// The paths, under `root`, of the files that `git diff --name-only`
/// lines name.
pub open spec fn diff_paths_of(lines: Seq<Seq<char>>, root: Seq<char>) -> Seq<Seq<char>> {
    lines.map_values(|l: Seq<char>| join_path(root, trim_ws(l)))
}

/// The branch that `git symbolic-ref refs/remotes/origin/HEAD` reports:
/// its trimmed output after `refs/remotes/origin/`, if it starts so.
pub open spec fn origin_head_branch(out: Seq<char>) -> Option<Seq<char>> {
    let t = trim_ws(out);
    if starts_with(t, "refs/remotes/origin/"@) {
        Some(t.skip("refs/remotes/origin/"@.len() as int))
    } else {
        None
    }
}

proof fn lemma_utf8_bytes_at_least_len(s: Seq<char>)
    ensures
        utf8_bytes(s) >= s.len(),
    decreases s.len(),
{
    if s.len() > 0 {
        lemma_utf8_bytes_at_least_len(s.drop_last());
    }
}

fn utf8_len_exec(c: char) -> (r: usize)
    ensures
        r == utf8_len(c),
{
    let v = c as u32;
    if v < 0x80 {
        1
    } else if v < 0x800 {
        2
    } else if v < 0x10000 {
        3
    } else {
        4
    }
}

/// Whether a status line can be read.
pub fn status_line_readable_exec(line: &Vec<char>) -> (r: bool)
    ensures
        r == status_line_readable(line@),
{
    let (total_small, cut) = first_bytes(line);
    match total_small {
        Some(t) => t <= 3 || cut >= 1,
        None => cut >= 1,
    }
}

/// The UTF-8 size of `line` when it has at most three characters (else
/// `None`, and the size is then above three), and the cut after three
/// bytes.
fn first_bytes(line: &Vec<char>) -> (r: (Option<usize>, i64))
    ensures
        r.1 == three_byte_cut(line@),
        match r.0 {
            Some(t) => t == utf8_bytes(line@) && line@.len() <= 3,
            None => utf8_bytes(line@) > 3 && line@.len() > 3,
        },
{
    let n = line.len();
    let ghost l = line@;
    proof {
        lemma_utf8_bytes_at_least_len(l);
    }
    let mut b1: usize = 0;
    let mut b2: usize = 0;
    let mut b3: usize = 0;
    if n >= 1 {
        b1 = utf8_len_exec(line[0]);
        assert(l.take(1).drop_last() =~= Seq::<char>::empty());
        assert(l.take(1).last() == l[0]);
        assert(utf8_bytes(Seq::<char>::empty()) == 0);
        assert(utf8_bytes(l.take(1)) == b1);
    }
    if n >= 2 {
        b2 = b1 + utf8_len_exec(line[1]);
        assert(l.take(2).drop_last() =~= l.take(1));
        assert(l.take(2).last() == l[1]);
        assert(utf8_bytes(l.take(2)) == b2);
    }
    if n >= 3 {
        b3 = b2 + utf8_len_exec(line[2]);
        assert(l.take(3).drop_last() =~= l.take(2));
        assert(l.take(3).last() == l[2]);
        assert(utf8_bytes(l.take(3)) == b3);
    }
    let cut: i64 = if n >= 1 && b1 == 3 {
        1
    } else if n >= 2 && b2 == 3 {
        2
    } else if n >= 3 && b3 == 3 {
        3
    } else {
        -1
    };
    if n > 3 {
        (None, cut)
    } else {
        assert(l.take(n as int) =~= l);
        let t = if n == 0 {
            0
        } else if n == 1 {
            b1
        } else if n == 2 {
            b2
        } else {
            b3
        };
        (Some(t), cut)
    }
}

/// The file a status line names, if any.
pub fn status_entry_exec(line: &Vec<char>) -> (r: Option<Vec<char>>)
    requires
        status_line_readable(line@),
    ensures
        match (r, status_entry(line@)) {
            (Some(a), Some(b)) => a@ == b,
            (None, None) => true,
            _ => false,
        },
{
    let (total_small, cut) = first_bytes(line);
    let long = match total_small {
        Some(t) => t > 3,
        None => true,
    };
    if !long {
        return None;
    }
    let c = cut as usize;
    let part = crate::paths::copy_range(line, c, line.len());
    assert(part@ =~= line@.skip(c as int));
    let arrow = chars_of(" -> ");
    proof {
        reveal_strlit(" -> ");
    }
    let name = last_piece_exec(&part, &arrow);
    Some(trim_chars(&name))
}

/// Whether every line of `git status --porcelain` output can be read.
pub fn status_output_readable_exec(out: &str) -> (r: bool)
    ensures
        r == status_output_readable(out@),
{
    let ls = lines(out);
    let ghost lv = ls@.map_values(|l: Vec<char>| l@);
    assert(lv == lines_of(out@));
    let mut i: usize = 0;
    while i < ls.len()
        invariant
            i <= ls@.len(),
            lv == ls@.map_values(|l: Vec<char>| l@),
            lv == lines_of(out@),
            forall|k: int| 0 <= k < i ==> status_line_readable(#[trigger] lv[k]),
        decreases ls@.len() - i,
    {
        assert(lv[i as int] == ls@[i as int]@);
        if !status_line_readable_exec(&ls[i]) {
            return false;
        }
        i = i + 1;
    }
    true
}

/// The paths under `root` of the files that `git status --porcelain`
/// output names, in order.
pub fn status_paths(out: &str, root: &str) -> (r: Vec<String>)
    requires
        status_output_readable(out@),
    ensures
        r@.map_values(|p: String| p@) == status_paths_of(lines_of(out@), root@),
{
    let ls = lines(out);
    let ghost lv = ls@.map_values(|l: Vec<char>| l@);
    let root_s = string_from_chars(&chars_of(root));
    let mut r: Vec<String> = Vec::new();
    let mut i: usize = 0;
    assert(lv.take(0) =~= Seq::<Seq<char>>::empty());
    while i < ls.len()
        invariant
            i <= ls@.len(),
            lv == ls@.map_values(|l: Vec<char>| l@),
            lv == lines_of(out@),
            status_output_readable(out@),
            root_s@ == root@,
            r@.map_values(|p: String| p@) == status_paths_of(lv.take(i as int), root@),
        decreases ls@.len() - i,
    {
        assert(lv[i as int] == ls@[i as int]@);
        assert(lv.take(i + 1).drop_last() =~= lv.take(i as int));
        assert(status_line_readable(lv[i as int]));
        let ghost before = r@.map_values(|p: String| p@);
        match status_entry_exec(&ls[i]) {
            Some(name) => {
                let f = string_from_chars(&name);
                let p = join(root_s.as_str(), f.as_str());
                r.push(p);
                assert(r@.map_values(|p: String| p@) =~= before.push(join_path(root@, name@)));
            },
            None => {},
        }
        i = i + 1;
    }
    assert(lv.take(ls@.len() as int) =~= lv);
    r
}

/// The paths under `root` of the files that `git diff --name-only`
/// output names, in order.
pub fn diff_paths(out: &str, root: &str) -> (r: Vec<String>)
    ensures
        r@.map_values(|p: String| p@) == diff_paths_of(lines_of(out@), root@),
{
    let ls = lines(out);
    let ghost lv = ls@.map_values(|l: Vec<char>| l@);
    let mut r: Vec<String> = Vec::new();
    let mut i: usize = 0;
    while i < ls.len()
        invariant
            i <= ls@.len(),
            lv == ls@.map_values(|l: Vec<char>| l@),
            lv == lines_of(out@),
            r@.map_values(|p: String| p@) == diff_paths_of(lv.take(i as int), root@),
        decreases ls@.len() - i,
    {
        assert(lv[i as int] == ls@[i as int]@);
        let name = string_from_chars(&trim_chars(&ls[i]));
        let p = join(root, name.as_str());
        let ghost before = r@.map_values(|p: String| p@);
        r.push(p);
        assert(r@.map_values(|p: String| p@) =~= before.push(join_path(root@, trim_ws(lv[i as int]))));
        assert(diff_paths_of(lv.take(i + 1), root@) =~= diff_paths_of(lv.take(i as int), root@).push(join_path(root@, trim_ws(lv[i as int]))));
        i = i + 1;
    }
    assert(lv.take(ls@.len() as int) =~= lv);
    r
}

/// The branch that `git symbolic-ref refs/remotes/origin/HEAD` reports.
pub fn origin_head_branch_exec(out: &str) -> (r: Option<String>)
    ensures
        match (r, origin_head_branch(out@)) {
            (Some(a), Some(b)) => a@ == b,
            (None, None) => true,
            _ => false,
        },
{
    let t = trim_chars(&chars_of(out));
    let pre = chars_of("refs/remotes/origin/");
    if starts_with_exec(&t, &pre) {
        let rest = crate::paths::copy_range(&t, pre.len(), t.len());
        assert(rest@ =~= t@.skip(pre@.len() as int));
        Some(string_from_chars(&rest))
    } else {
        None
    }
}


// ---------------------------------------------------------------------
// Finding the changed files: the steps between git, the file system and
// the decisions
// ---------------------------------------------------------------------

/// `std::path::Path::parent` of a path.
pub uninterp spec fn std_path_parent(p: Seq<char>) -> Option<Seq<char>>;

/// `Path::parent`: the path without its final component, `None` for a
/// path that ends in the root or is empty. What the parent of a given
/// path is, is named here, not stated: it is what std's reading of
/// components gives.
#[verifier::external_body]
pub(crate) fn path_parent(p: &str) -> (r: Option<String>)
    ensures
        match (r, std_path_parent(p@)) {
            (Some(a), Some(b)) => a@ == b,
            (None, None) => true,
            _ => false,
        },
{
    match std::path::Path::new(p).parent() {
        Some(q) => Some(q.to_string_lossy().into_owned()),
        None => None,
    }
}

/// How a git command ended.
pub enum GitOutcome {
    /// The command could not be started.
    NotRun,
    /// The command ran: whether it succeeded, and what it printed.
    Exited { success: bool, stdout: String },
}

/// What a scan for changed files asks of the one who drives it.
pub enum GitAction {
    /// Resolve this path to its canonical form; answer with `resolved`.
    Canonicalize(String),
    /// Tell whether this path exists; answer with `found`.
    Exists(String),
    /// Tell whether this path is an existing directory; answer with `found`.
    IsDir(String),
    /// Run git in `dir` with `args`; answer with `ran`.
    Git { dir: String, args: Vec<String> },
    /// The scan is over: the changed files, or what went wrong.
    Done(Result<Vec<String>, String>),
}

/// Where a scan stands: what it has asked and waits for.
#[derive(Debug, Clone, Copy, PartialEq, Eq, Structural)]
pub enum ScanPhase {
    /// The canonical project root, to start looking for the repository.
    Canon,
    /// Whether `.git` exists in the directory being looked at.
    Walk,
    /// Whether the repository root is a directory, before `git status`.
    StatusDir,
    /// The output of `git status`.
    Status,
    /// Whether a file that `git status` names exists.
    StatusCheck,
    /// Whether the repository root is a directory, before the branch work.
    BaseDir,
    /// Whether a `main` branch exists.
    MainRef,
    /// Whether a `master` branch exists.
    MasterRef,
    /// The default branch of `origin`.
    OriginHead,
    /// The current branch.
    CurrentBranch,
    /// The merge base with the main branch.
    MergeBase,
    /// The output of `git diff`.
    Diff,
    /// Whether a file that `git diff` names exists.
    DiffCheck,
    /// The canonical project root, to keep the files under it.
    RootCanon,
    /// The canonical form of a changed file.
    Filter,
    /// Nothing: the scan is over.
    Finished,
}

/// A scan for the files changed in the git repository of a project:
/// uncommitted changes and changes since the main branch, that exist and
/// lie under the project root.
pub struct ChangedFilesScan {
    pub phase: ScanPhase,
    /// The project root the scan was started for.
    pub project_root: String,
    /// The directory looked at while searching for the repository; its
    /// root once found.
    pub current: String,
    /// The changed files found so far.
    pub changed: Vec<String>,
    /// Files named by git, whose existence is being checked.
    pub pending: Vec<String>,
    /// The position in `pending`, or in `changed` while filtering.
    pub idx: usize,
    /// The main branch.
    pub main_branch: String,
    /// The canonical project root.
    pub root_canonical: String,
    /// The changed files kept by the filter so far.
    pub kept: Vec<String>,
}

/// The views of a list of strings.
pub open spec fn views(v: Seq<String>) -> Seq<Seq<char>> {
    v.map_values(|s: String| s@)
}

/// `a` asks for the canonical form of `p`.
pub open spec fn asks_canonical(a: GitAction, p: Seq<char>) -> bool {
    a matches GitAction::Canonicalize(q) && q@ == p
}

/// `a` asks whether `p` exists.
pub open spec fn asks_exists(a: GitAction, p: Seq<char>) -> bool {
    a matches GitAction::Exists(q) && q@ == p
}

/// `a` asks whether `p` is a directory.
pub open spec fn asks_is_dir(a: GitAction, p: Seq<char>) -> bool {
    a matches GitAction::IsDir(q) && q@ == p
}

/// `a` asks to run git in `dir` with `args`.
pub open spec fn asks_git(a: GitAction, dir: Seq<char>, args: Seq<Seq<char>>) -> bool {
    a matches GitAction::Git { dir: d, args: g } && d@ == dir && views(g@) == args
}

/// `a` ends the scan with the error `msg`.
pub open spec fn fails_with(a: GitAction, msg: Seq<char>) -> bool {
    a matches GitAction::Done(Err(m)) && m@ == msg
}

/// `a` ends the scan with the files `files`, sorted in path order with
/// equal paths removed.
pub open spec fn ends_with_files(a: GitAction, files: Seq<String>) -> bool {
    a matches GitAction::Done(Ok(v)) && sorted_dedup_of(v@, files)
}

/// The current branch that `git rev-parse --abbrev-ref HEAD` reports: its
/// trimmed output, unless it failed or reports a detached `HEAD`.
pub open spec fn current_branch_of(o: GitOutcome) -> Option<Seq<char>> {
    match o {
        GitOutcome::Exited { success: true, stdout } => if trim_ws(stdout@) != "HEAD"@ {
            Some(trim_ws(stdout@))
        } else {
            None
        },
        _ => None,
    }
}

/// The command succeeded.
pub open spec fn succeeded(o: GitOutcome) -> bool {
    o matches GitOutcome::Exited { success: true, .. }
}

/// A file is under the project root when its canonical form starts, by
/// whole components, with the canonical root.
pub open spec fn under_root(canonical: Option<String>, root: Seq<char>) -> bool {
    canonical matches Some(c) && comps_starts_with(path_comps(c@), path_comps(root))
}

/// `b` is the scan `a` after the canonical form `canonical` of the changed
/// file at its position came back during filtering.
pub open spec fn filter_step(a: ChangedFilesScan, b: ChangedFilesScan, canonical: Option<String>) -> bool {
    &&& b.changed == a.changed
    &&& b.root_canonical == a.root_canonical
    &&& b.idx == a.idx + 1
    &&& b.kept@ == if under_root(canonical, a.root_canonical@) {
        a.kept@.push(a.changed@[a.idx as int])
    } else {
        a.kept@
    }
}

/// The changed files whose canonical forms, `answers` in the same order,
/// lie under the canonical root `root`, in their order.
pub open spec fn kept_under_root(changed: Seq<String>, answers: Seq<Option<String>>, root: Seq<char>) -> Seq<String>
    decreases changed.len(),
{
    if changed.len() == 0 || answers.len() == 0 {
        seq![]
    } else {
        let k = kept_under_root(changed.drop_last(), answers.drop_last(), root);
        if under_root(answers.last(), root) {
            k.push(changed.last())
        } else {
            k
        }
    }
}

proof fn lemma_filter_prefix(states: Seq<ChangedFilesScan>, answers: Seq<Option<String>>, i: int)
    requires
        states.len() == answers.len() + 1,
        states[0].idx == 0,
        states[0].kept@.len() == 0,
        answers.len() <= states[0].changed@.len(),
        forall|j: int| 0 <= j < answers.len() ==> filter_step(#[trigger] states[j], states[j + 1], answers[j]),
        0 <= i <= answers.len(),
    ensures
        states[i].changed == states[0].changed,
        states[i].root_canonical == states[0].root_canonical,
        states[i].idx == i,
        states[i].kept@ == kept_under_root(
            states[0].changed@.take(i),
            answers.take(i),
            states[0].root_canonical@,
        ),
    decreases i,
{
    if i == 0 {
        assert(states[0].kept@ =~= Seq::<String>::empty());
    } else {
        lemma_filter_prefix(states, answers, i - 1);
        assert(filter_step(states[i - 1], states[i], answers[i - 1]));
        let ch = states[0].changed@;
        assert(ch.take(i).drop_last() =~= ch.take(i - 1));
        assert(answers.take(i).drop_last() =~= answers.take(i - 1));
        assert(ch.take(i).last() == ch[i - 1]);
        assert(answers.take(i).last() == answers[i - 1]);
    }
}

/// Filtering keeps exactly the changed files under the project root: fed
/// the canonical form of each changed file in turn, the scan ends having
/// kept, in order, those changed files whose canonical form lies under the
/// canonical project root, and no other.
pub proof fn law_filter_keeps_under_root(states: Seq<ChangedFilesScan>, answers: Seq<Option<String>>)
    requires
        states.len() == answers.len() + 1,
        states[0].idx == 0,
        states[0].kept@.len() == 0,
        answers.len() == states[0].changed@.len(),
        forall|i: int| 0 <= i < answers.len() ==> filter_step(#[trigger] states[i], states[i + 1], answers[i]),
    ensures
        states.last().idx == states[0].changed@.len(),
        states.last().kept@ == kept_under_root(states[0].changed@, answers, states[0].root_canonical@),
{
    lemma_filter_prefix(states, answers, answers.len() as int);
    assert(states[0].changed@.take(answers.len() as int) =~= states[0].changed@);
    assert(answers.take(answers.len() as int) =~= answers);
}

impl ChangedFilesScan {
    /// The position fits the list it points into.
    pub open spec fn wf(&self) -> bool {
        &&& (self.phase == ScanPhase::StatusCheck || self.phase == ScanPhase::DiffCheck) ==> self.idx < self.pending@.len()
        &&& self.phase == ScanPhase::Filter ==> self.idx < self.changed@.len()
    }

    /// The scan waits for a canonical form.
    pub open spec fn waits_resolved(&self) -> bool {
        self.phase == ScanPhase::Canon || self.phase == ScanPhase::RootCanon || self.phase == ScanPhase::Filter
    }

    /// The scan waits for a yes or no about a path.
    pub open spec fn waits_found(&self) -> bool {
        ||| self.phase == ScanPhase::Walk
        ||| self.phase == ScanPhase::StatusDir
        ||| self.phase == ScanPhase::StatusCheck
        ||| self.phase == ScanPhase::BaseDir
        ||| self.phase == ScanPhase::DiffCheck
    }

    /// The scan waits for a git command.
    pub open spec fn waits_git(&self) -> bool {
        ||| self.phase == ScanPhase::Status
        ||| self.phase == ScanPhase::MainRef
        ||| self.phase == ScanPhase::MasterRef
        ||| self.phase == ScanPhase::OriginHead
        ||| self.phase == ScanPhase::CurrentBranch
        ||| self.phase == ScanPhase::MergeBase
        ||| self.phase == ScanPhase::Diff
    }
}

fn strings2(a: &str, b: &str) -> (r: Vec<String>)
    ensures
        views(r@) == seq![a@, b@],
{
    let mut r: Vec<String> = Vec::new();
    r.push(string_from_chars(&chars_of(a)));
    r.push(string_from_chars(&chars_of(b)));
    assert(views(r@) =~= seq![a@, b@]);
    r
}

fn strings3(a: &str, b: &str, c: &str) -> (r: Vec<String>)
    ensures
        views(r@) == seq![a@, b@, c@],
{
    let mut r = strings2(a, b);
    let ghost before = r@;
    r.push(string_from_chars(&chars_of(c)));
    assert(views(r@) =~= views(before).push(c@));
    r
}

fn strings4(a: &str, b: &str, c: &str, d: &str) -> (r: Vec<String>)
    ensures
        views(r@) == seq![a@, b@, c@, d@],
{
    let mut r = strings3(a, b, c);
    let ghost before = r@;
    r.push(string_from_chars(&chars_of(d)));
    assert(views(r@) =~= views(before).push(d@));
    r
}

fn message(m: &str) -> (r: String)
    ensures
        r@ == m@,
{
    string_from_chars(&chars_of(m))
}

fn git_here(dir: &String, args: Vec<String>) -> (r: GitAction)
    ensures
        r matches GitAction::Git { dir: d, args: g } && d@ == dir@ && g@ == args@,
{
    GitAction::Git { dir: dir.clone(), args }
}

fn exists_of_git_dir(dir: &str) -> (r: GitAction)
    ensures
        asks_exists(r, join_path(dir@, ".git"@)),
{
    GitAction::Exists(join(dir, ".git"))
}

/// Starts the scan for the files changed in the repository of
/// `project_root`. It first asks for the root's canonical form.
pub fn get_changed_files(project_root: &str) -> (r: (ChangedFilesScan, GitAction))
    ensures
        r.0.phase == ScanPhase::Canon,
        r.0.project_root@ == project_root@,
        r.0.changed@.len() == 0,
        r.0.kept@.len() == 0,
        r.0.wf(),
        asks_canonical(r.1, project_root@),
{
    let root = message(project_root);
    let scan = ChangedFilesScan {
        phase: ScanPhase::Canon,
        project_root: root.clone(),
        current: root.clone(),
        changed: Vec::new(),
        pending: Vec::new(),
        idx: 0,
        main_branch: String::new(),
        root_canonical: String::new(),
        kept: Vec::new(),
    };
    (scan, GitAction::Canonicalize(root))
}

impl ChangedFilesScan {
    fn finish_changes(&mut self) -> (r: GitAction)
        ensures
            final(self).phase == ScanPhase::RootCanon,
            asks_canonical(r, old(self).project_root@),
            final(self).project_root == old(self).project_root,
            final(self).current == old(self).current,
            final(self).changed == old(self).changed,
            final(self).pending == old(self).pending,
            final(self).idx == old(self).idx,
            final(self).main_branch == old(self).main_branch,
            final(self).root_canonical == old(self).root_canonical,
            final(self).kept == old(self).kept,
    {
        self.phase = ScanPhase::RootCanon;
        GitAction::Canonicalize(self.project_root.clone())
    }

    fn ask_current_branch(&mut self) -> (r: GitAction)
        ensures
            final(self).phase == ScanPhase::CurrentBranch,
            asks_git(r, old(self).current@, seq!["rev-parse"@, "--abbrev-ref"@, "HEAD"@]),
            final(self).project_root == old(self).project_root,
            final(self).current == old(self).current,
            final(self).changed == old(self).changed,
            final(self).pending == old(self).pending,
            final(self).idx == old(self).idx,
            final(self).main_branch == old(self).main_branch,
            final(self).root_canonical == old(self).root_canonical,
            final(self).kept == old(self).kept,
    {
        self.phase = ScanPhase::CurrentBranch;
        git_here(&self.current, strings3("rev-parse", "--abbrev-ref", "HEAD"))
    }

    /// Answers a request for a canonical form: `canonical` is the
    /// resolved path, `None` when it could not be resolved.
    ///
    /// - Starting, the search for the repository begins at the resolved
    ///   root (or the root as given) with a question for its `.git`.
    /// - For the project root at the end, each changed file's canonical
    ///   form is asked for in turn (none: the scan ends with no file).
    /// - For a changed file, it is kept when its canonical form lies
    ///   under the canonical root; after the last one the scan ends with
    ///   the kept files, sorted and without repeats.
    pub fn resolved(&mut self, canonical: Option<String>) -> (r: GitAction)
        requires
            old(self).wf(),
            old(self).waits_resolved(),
        ensures
            final(self).wf(),
            final(self).project_root == old(self).project_root,
            final(self).changed == old(self).changed,
            final(self).pending == old(self).pending,
            final(self).main_branch == old(self).main_branch,
            old(self).phase == ScanPhase::Canon ==> {
                &&& final(self).phase == ScanPhase::Walk
                &&& final(self).current@ == match canonical {
                    Some(c) => c@,
                    None => old(self).project_root@,
                }
                &&& final(self).kept == old(self).kept
                &&& asks_exists(r, join_path(final(self).current@, ".git"@))
            },
            old(self).phase == ScanPhase::RootCanon ==> {
                &&& final(self).current == old(self).current
                &&& final(self).root_canonical@ == match canonical {
                    Some(c) => c@,
                    None => old(self).project_root@,
                }
                &&& final(self).idx == 0
                &&& final(self).kept@.len() == 0
                &&& old(self).changed@.len() == 0 ==> final(self).phase == ScanPhase::Finished && ends_with_files(r, final(self).kept@)
                &&& old(self).changed@.len() > 0 ==> final(self).phase == ScanPhase::Filter && asks_canonical(r, old(self).changed@[0]@)
            },
            old(self).phase == ScanPhase::Filter ==> {
                &&& filter_step(*old(self), *final(self), canonical)
                &&& final(self).current == old(self).current
                &&& final(self).root_canonical == old(self).root_canonical
                &&& final(self).idx == old(self).idx + 1
                &&& final(self).kept@ == if under_root(canonical, old(self).root_canonical@) {
                    old(self).kept@.push(old(self).changed@[old(self).idx as int])
                } else {
                    old(self).kept@
                }
                &&& final(self).idx < old(self).changed@.len() ==> final(self).phase == ScanPhase::Filter
                    && asks_canonical(r, old(self).changed@[final(self).idx as int]@)
                &&& final(self).idx == old(self).changed@.len() ==> final(self).phase == ScanPhase::Finished
                    && ends_with_files(r, final(self).kept@)
            },
    {
        match self.phase {
            ScanPhase::Canon => {
                let start = match canonical {
                    Some(c) => c,
                    None => self.project_root.clone(),
                };
                self.current = start;
                self.phase = ScanPhase::Walk;
                exists_of_git_dir(self.current.as_str())
            },
            ScanPhase::RootCanon => {
                self.root_canonical = match canonical {
                    Some(c) => c,
                    None => self.project_root.clone(),
                };
                self.idx = 0;
                self.kept = Vec::new();
                if self.changed.len() == 0 {
                    self.phase = ScanPhase::Finished;
                    GitAction::Done(Ok(sort_dedup_paths(&self.kept)))
                } else {
                    self.phase = ScanPhase::Filter;
                    GitAction::Canonicalize(self.changed[0].clone())
                }
            },
            _ => {
                let keep = match &canonical {
                    Some(c) => {
                        let cc = components(c.as_str());
                        let rc = components(self.root_canonical.as_str());
                        assert(comps_view(cc@).take(cc@.len() as int) =~= comps_view(cc@));
                        assert(comps_view(rc@).take(rc@.len() as int) =~= comps_view(rc@));
                        comps_starts_with_exec(&cc, cc.len(), &rc, rc.len())
                    },
                    None => false,
                };
                assert(self.phase == ScanPhase::Filter);
                let n = self.changed.len();
                assert(self.idx < n);
                if keep {
                    let f = self.changed[self.idx].clone();
                    self.kept.push(f);
                }
                self.idx = self.idx + 1;
                if self.idx < self.changed.len() {
                    GitAction::Canonicalize(self.changed[self.idx].clone())
                } else {
                    self.phase = ScanPhase::Finished;
                    GitAction::Done(Ok(sort_dedup_paths(&self.kept)))
                }
            },
        }
    }

    /// Answers a yes-or-no question about a path.
    ///
    /// - Searching for the repository: when `.git` exists the directory is
    ///   the repository root, and whether it is a directory is asked next;
    ///   else the search goes on in the parent, and without a parent the
    ///   scan ends with no file.
    /// - Before `git status`: for a directory, `git status --porcelain
    ///   -uall` is asked for; else no uncommitted change counts and the
    ///   branch work begins.
    /// - For a file that git names: it joins the changed files when it
    ///   exists; then the next one, or the next stage.
    /// - Before the branch work: for a directory, whether `main` exists is
    ///   asked; else the changes found are filtered.
    pub fn found(&mut self, yes: bool) -> (r: GitAction)
        requires
            old(self).wf(),
            old(self).waits_found(),
        ensures
            final(self).wf(),
            final(self).project_root == old(self).project_root,
            final(self).pending == old(self).pending,
            final(self).main_branch == old(self).main_branch,
            final(self).root_canonical == old(self).root_canonical,
            final(self).kept == old(self).kept,
            old(self).phase != ScanPhase::StatusCheck && old(self).phase != ScanPhase::DiffCheck ==> {
                &&& final(self).changed == old(self).changed
                &&& final(self).idx == old(self).idx
            },
            old(self).phase != ScanPhase::Walk ==> final(self).current == old(self).current,
            old(self).phase == ScanPhase::Walk && yes ==> {
                &&& final(self).phase == ScanPhase::StatusDir
                &&& final(self).current == old(self).current
                &&& asks_is_dir(r, old(self).current@)
            },
            old(self).phase == ScanPhase::Walk && !yes ==> match std_path_parent(old(self).current@) {
                Some(p) => final(self).phase == ScanPhase::Walk && final(self).current@ == p && asks_exists(
                    r,
                    join_path(p, ".git"@),
                ),
                None => final(self).phase == ScanPhase::Finished && final(self).current == old(self).current
                    && (r matches GitAction::Done(Ok(v)) && v@.len() == 0),
            },
            old(self).phase == ScanPhase::StatusDir && yes ==> final(self).phase == ScanPhase::Status && asks_git(
                r,
                old(self).current@,
                seq!["status"@, "--porcelain"@, "-uall"@],
            ),
            old(self).phase == ScanPhase::StatusDir && !yes ==> final(self).phase == ScanPhase::BaseDir && asks_is_dir(
                r,
                old(self).current@,
            ),
            old(self).phase == ScanPhase::BaseDir && yes ==> final(self).phase == ScanPhase::MainRef && asks_git(
                r,
                old(self).current@,
                seq!["rev-parse"@, "--verify"@, "main"@],
            ),
            old(self).phase == ScanPhase::BaseDir && !yes ==> final(self).phase == ScanPhase::RootCanon && asks_canonical(
                r,
                old(self).project_root@,
            ),
            old(self).phase == ScanPhase::StatusCheck || old(self).phase == ScanPhase::DiffCheck ==> {
                &&& final(self).changed@ == if yes {
                    old(self).changed@.push(old(self).pending@[old(self).idx as int])
                } else {
                    old(self).changed@
                }
                &&& final(self).idx == old(self).idx + 1
                &&& final(self).idx < old(self).pending@.len() ==> final(self).phase == old(self).phase
                    && asks_exists(r, old(self).pending@[final(self).idx as int]@)
                &&& final(self).idx == old(self).pending@.len() && old(self).phase == ScanPhase::StatusCheck
                    ==> final(self).phase == ScanPhase::BaseDir && asks_is_dir(r, old(self).current@)
                &&& final(self).idx == old(self).pending@.len() && old(self).phase == ScanPhase::DiffCheck
                    ==> final(self).phase == ScanPhase::RootCanon && asks_canonical(r, old(self).project_root@)
            },
    {
        match self.phase {
            ScanPhase::Walk => {
                if yes {
                    self.phase = ScanPhase::StatusDir;
                    GitAction::IsDir(self.current.clone())
                } else {
                    match path_parent(self.current.as_str()) {
                        Some(p) => {
                            self.current = p;
                            exists_of_git_dir(self.current.as_str())
                        },
                        None => {
                            self.phase = ScanPhase::Finished;
                            GitAction::Done(Ok(Vec::new()))
                        },
                    }
                }
            },
            ScanPhase::StatusDir => {
                if yes {
                    self.phase = ScanPhase::Status;
                    git_here(&self.current, strings3("status", "--porcelain", "-uall"))
                } else {
                    self.phase = ScanPhase::BaseDir;
                    GitAction::IsDir(self.current.clone())
                }
            },
            ScanPhase::BaseDir => {
                if yes {
                    self.phase = ScanPhase::MainRef;
                    git_here(&self.current, strings3("rev-parse", "--verify", "main"))
                } else {
                    self.finish_changes()
                }
            },
            _ => {
                assert(self.phase == ScanPhase::StatusCheck || self.phase == ScanPhase::DiffCheck);
                let n = self.pending.len();
                assert(self.idx < n);
                if yes {
                    let f = self.pending[self.idx].clone();
                    self.changed.push(f);
                }
                self.idx = self.idx + 1;
                if self.idx < self.pending.len() {
                    GitAction::Exists(self.pending[self.idx].clone())
                } else if self.phase == ScanPhase::StatusCheck {
                    self.phase = ScanPhase::BaseDir;
                    GitAction::IsDir(self.current.clone())
                } else {
                    self.finish_changes()
                }
            },
        }
    }

    /// Answers a git command.
    ///
    /// - `git status`: not started ends the scan with an error; a failure
    ///   counts no uncommitted change; else the files it names are checked
    ///   for existence one by one, then the branch work begins.
    /// - `main`, then `master`, then `origin`'s default branch are tried as
    ///   the main branch; with none, the changes found are filtered.
    /// - The current branch: not started ends the scan with an error. On
    ///   the main branch the comparison is with `HEAD~1`; else with the
    ///   merge base, asked for next.
    /// - The merge base: failing, the changes found are filtered; else
    ///   `git diff --name-only <base> HEAD` is asked for.
    /// - `git diff`: not started ends the scan with an error; a failure
    ///   adds nothing; else the files it names are checked one by one.
    pub fn ran(&mut self, outcome: GitOutcome) -> (r: GitAction)
        requires
            old(self).wf(),
            old(self).waits_git(),
            old(self).phase == ScanPhase::Status ==> match outcome {
                GitOutcome::Exited { success: true, stdout } => status_output_readable(stdout@),
                _ => true,
            },
        ensures
            final(self).wf(),
            final(self).project_root == old(self).project_root,
            final(self).current == old(self).current,
            final(self).changed == old(self).changed,
            final(self).root_canonical == old(self).root_canonical,
            final(self).kept == old(self).kept,
            old(self).phase != ScanPhase::Status && old(self).phase != ScanPhase::Diff ==> final(self).pending
                == old(self).pending && final(self).idx == old(self).idx,
            old(self).phase != ScanPhase::MainRef && old(self).phase != ScanPhase::MasterRef && old(self).phase
                != ScanPhase::OriginHead ==> final(self).main_branch == old(self).main_branch,
            old(self).phase == ScanPhase::Status ==> match outcome {
                GitOutcome::NotRun => final(self).phase == ScanPhase::Finished && fails_with(r, "Failed to run git status"@),
                GitOutcome::Exited { success: false, .. } => final(self).phase == ScanPhase::BaseDir && asks_is_dir(
                    r,
                    old(self).current@,
                ) && final(self).pending == old(self).pending && final(self).idx == old(self).idx,
                GitOutcome::Exited { success: true, stdout } => {
                    &&& views(final(self).pending@) == status_paths_of(lines_of(stdout@), old(self).current@)
                    &&& final(self).idx == 0
                    &&& final(self).pending@.len() == 0 ==> final(self).phase == ScanPhase::BaseDir && asks_is_dir(
                        r,
                        old(self).current@,
                    )
                    &&& final(self).pending@.len() > 0 ==> final(self).phase == ScanPhase::StatusCheck && asks_exists(
                        r,
                        final(self).pending@[0]@,
                    )
                },
            },
            old(self).phase == ScanPhase::MainRef ==> if succeeded(outcome) {
                final(self).main_branch@ == "main"@ && final(self).phase == ScanPhase::CurrentBranch && asks_git(
                    r,
                    old(self).current@,
                    seq!["rev-parse"@, "--abbrev-ref"@, "HEAD"@],
                )
            } else {
                final(self).main_branch == old(self).main_branch && final(self).phase == ScanPhase::MasterRef
                    && asks_git(r, old(self).current@, seq!["rev-parse"@, "--verify"@, "master"@])
            },
            old(self).phase == ScanPhase::MasterRef ==> if succeeded(outcome) {
                final(self).main_branch@ == "master"@ && final(self).phase == ScanPhase::CurrentBranch && asks_git(
                    r,
                    old(self).current@,
                    seq!["rev-parse"@, "--abbrev-ref"@, "HEAD"@],
                )
            } else {
                final(self).main_branch == old(self).main_branch && final(self).phase == ScanPhase::OriginHead
                    && asks_git(r, old(self).current@, seq!["symbolic-ref"@, "refs/remotes/origin/HEAD"@])
            },
            old(self).phase == ScanPhase::OriginHead ==> match outcome {
                GitOutcome::Exited { success: true, stdout } if origin_head_branch(stdout@) is Some => {
                    &&& final(self).main_branch@ == origin_head_branch(stdout@)->0
                    &&& final(self).phase == ScanPhase::CurrentBranch
                    &&& asks_git(r, old(self).current@, seq!["rev-parse"@, "--abbrev-ref"@, "HEAD"@])
                },
                _ => final(self).main_branch == old(self).main_branch && final(self).phase == ScanPhase::RootCanon
                    && asks_canonical(r, old(self).project_root@),
            },
            old(self).phase == ScanPhase::CurrentBranch ==> match outcome {
                GitOutcome::NotRun => final(self).phase == ScanPhase::Finished && fails_with(r, "Failed to get current branch"@),
                _ => if current_branch_of(outcome) == Some(old(self).main_branch@) {
                    final(self).phase == ScanPhase::Diff && asks_git(
                        r,
                        old(self).current@,
                        seq!["diff"@, "--name-only"@, "HEAD~1"@, "HEAD"@],
                    )
                } else {
                    final(self).phase == ScanPhase::MergeBase && asks_git(
                        r,
                        old(self).current@,
                        seq!["merge-base"@, "HEAD"@, old(self).main_branch@],
                    )
                },
            },
            old(self).phase == ScanPhase::MergeBase ==> match outcome {
                GitOutcome::Exited { success: true, stdout } => final(self).phase == ScanPhase::Diff && asks_git(
                    r,
                    old(self).current@,
                    seq!["diff"@, "--name-only"@, trim_ws(stdout@), "HEAD"@],
                ),
                _ => final(self).phase == ScanPhase::RootCanon && asks_canonical(r, old(self).project_root@),
            },
            old(self).phase == ScanPhase::Diff ==> match outcome {
                GitOutcome::NotRun => final(self).phase == ScanPhase::Finished && fails_with(r, "Failed to run git diff"@),
                GitOutcome::Exited { success: false, .. } => final(self).phase == ScanPhase::RootCanon && asks_canonical(
                    r,
                    old(self).project_root@,
                ) && final(self).pending == old(self).pending && final(self).idx == old(self).idx,
                GitOutcome::Exited { success: true, stdout } => {
                    &&& views(final(self).pending@) == diff_paths_of(lines_of(stdout@), old(self).current@)
                    &&& final(self).idx == 0
                    &&& final(self).pending@.len() == 0 ==> final(self).phase == ScanPhase::RootCanon && asks_canonical(
                        r,
                        old(self).project_root@,
                    )
                    &&& final(self).pending@.len() > 0 ==> final(self).phase == ScanPhase::DiffCheck && asks_exists(
                        r,
                        final(self).pending@[0]@,
                    )
                },
            },
    {
        match self.phase {
            ScanPhase::Status => match outcome {
                GitOutcome::NotRun => {
                    self.phase = ScanPhase::Finished;
                    GitAction::Done(Err(message("Failed to run git status")))
                },
                GitOutcome::Exited { success, stdout } => {
                    if !success {
                        self.phase = ScanPhase::BaseDir;
                        return GitAction::IsDir(self.current.clone());
                    }
                    self.pending = status_paths(stdout.as_str(), self.current.as_str());
                    self.idx = 0;
                    proof {
                        assert(views(self.pending@).len() == self.pending@.len());
                    }
                    if self.pending.len() == 0 {
                        self.phase = ScanPhase::BaseDir;
                        GitAction::IsDir(self.current.clone())
                    } else {
                        self.phase = ScanPhase::StatusCheck;
                        GitAction::Exists(self.pending[0].clone())
                    }
                },
            },
            ScanPhase::MainRef => {
                if outcome_succeeded(&outcome) {
                    self.main_branch = message("main");
                    self.ask_current_branch()
                } else {
                    self.phase = ScanPhase::MasterRef;
                    git_here(&self.current, strings3("rev-parse", "--verify", "master"))
                }
            },
            ScanPhase::MasterRef => {
                if outcome_succeeded(&outcome) {
                    self.main_branch = message("master");
                    self.ask_current_branch()
                } else {
                    self.phase = ScanPhase::OriginHead;
                    git_here(&self.current, strings2("symbolic-ref", "refs/remotes/origin/HEAD"))
                }
            },
            ScanPhase::OriginHead => {
                let branch = match &outcome {
                    GitOutcome::Exited { success: true, stdout } => origin_head_branch_exec(stdout.as_str()),
                    _ => None,
                };
                match branch {
                    Some(b) => {
                        self.main_branch = b;
                        self.ask_current_branch()
                    },
                    None => self.finish_changes(),
                }
            },
            ScanPhase::CurrentBranch => {
                if matches!(outcome, GitOutcome::NotRun) {
                    self.phase = ScanPhase::Finished;
                    return GitAction::Done(Err(message("Failed to get current branch")));
                }
                let on_main = match current_branch_exec(&outcome) {
                    Some(b) => str_equal(b.as_str(), self.main_branch.as_str()),
                    None => false,
                };
                if on_main {
                    self.phase = ScanPhase::Diff;
                    git_here(&self.current, strings4("diff", "--name-only", "HEAD~1", "HEAD"))
                } else {
                    self.phase = ScanPhase::MergeBase;
                    git_here(&self.current, strings3("merge-base", "HEAD", self.main_branch.as_str()))
                }
            },
            ScanPhase::MergeBase => match outcome {
                GitOutcome::Exited { success: true, stdout } => {
                    let base = string_from_chars(&trim_chars(&chars_of(stdout.as_str())));
                    self.phase = ScanPhase::Diff;
                    git_here(&self.current, strings4("diff", "--name-only", base.as_str(), "HEAD"))
                },
                _ => self.finish_changes(),
            },
            _ => match outcome {
                GitOutcome::NotRun => {
                    self.phase = ScanPhase::Finished;
                    GitAction::Done(Err(message("Failed to run git diff")))
                },
                GitOutcome::Exited { success, stdout } => {
                    if !success {
                        return self.finish_changes();
                    }
                    self.pending = diff_paths(stdout.as_str(), self.current.as_str());
                    self.idx = 0;
                    proof {
                        assert(views(self.pending@).len() == self.pending@.len());
                    }
                    if self.pending.len() == 0 {
                        self.finish_changes()
                    } else {
                        self.phase = ScanPhase::DiffCheck;
                        GitAction::Exists(self.pending[0].clone())
                    }
                },
            },
        }
    }
}

fn outcome_succeeded(o: &GitOutcome) -> (r: bool)
    ensures
        r == succeeded(*o),
{
    match o {
        GitOutcome::Exited { success: true, .. } => true,
        _ => false,
    }
}

fn current_branch_exec(o: &GitOutcome) -> (r: Option<String>)
    ensures
        match (r, current_branch_of(*o)) {
            (Some(a), Some(b)) => a@ == b,
            (None, None) => true,
            _ => false,
        },
{
    match o {
        GitOutcome::Exited { success: true, stdout } => {
            let t = string_from_chars(&trim_chars(&chars_of(stdout.as_str())));
            if str_equal(t.as_str(), "HEAD") {
                None
            } else {
                Some(t)
            }
        },
        _ => None,
    }
}

} // verus!
