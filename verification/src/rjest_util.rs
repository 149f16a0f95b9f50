//! Jest/minimatch glob patterns, turned into regular expressions, and the
//! check that a resolved path lies under a resolved base.

use vstd::prelude::*;
use crate::matching::{regex_compiles, regex_is_match, regex_search};
use crate::paths::{comps_starts_with, comps_view, components, comps_starts_with_exec, path_comps};
use crate::text::{chars_of, contains, contains_exec, string_from_chars};

verus! {

/// Where the loop of `extract_group` stops, scanning from `j` at nesting
/// `depth`: just past the `)` that closes the group, or at the end.
pub open spec fn group_scan_end(p: Seq<char>, j: int, depth: int) -> int
    decreases p.len() - j,
{
    if j >= p.len() {
        j
    } else if p[j] == '(' {
        group_scan_end(p, j + 1, depth + 1)
    } else if p[j] == ')' && depth == 1 {
        j + 1
    } else if p[j] == ')' {
        group_scan_end(p, j + 1, depth - 1)
    } else {
        group_scan_end(p, j + 1, depth)
    }
}

pub proof fn lemma_group_scan_end_ge(p: Seq<char>, j: int, depth: int)
    ensures
        group_scan_end(p, j, depth) >= j,
        j <= p.len() ==> group_scan_end(p, j, depth) <= p.len(),
    decreases p.len() - j,
{
    if j < p.len() {
        if p[j] == '(' {
            lemma_group_scan_end_ge(p, j + 1, depth + 1);
        } else if p[j] == ')' && depth == 1 {
        } else if p[j] == ')' {
            lemma_group_scan_end_ge(p, j + 1, depth - 1);
        } else {
            lemma_group_scan_end_ge(p, j + 1, depth);
        }
    }
}

/// The first index at or after `j` that holds `]`, or the length.
pub open spec fn class_end(p: Seq<char>, j: int) -> int
    decreases p.len() - j,
{
    if j >= p.len() {
        p.len() as int
    } else if p[j] == ']' {
        j
    } else {
        class_end(p, j + 1)
    }
}

pub proof fn lemma_class_end_bounds(p: Seq<char>, j: int)
    ensures
        j <= p.len() ==> j <= class_end(p, j) <= p.len(),
    decreases p.len() - j,
{
    if j < p.len() && p[j] != ']' {
        lemma_class_end_bounds(p, j + 1);
    }
}

/// Characters that stand for themselves in a glob but must be escaped in a
/// regex.
pub open spec fn is_escaped(c: char) -> bool {
    c == '(' || c == ')' || c == '{' || c == '}' || c == '^' || c == '$' || c == '|' || c == '\\'
}

/// The text between the `(` at `open` and the index `close` of the
/// matching `)` (empty when nothing lies between them).
pub open spec fn group_content(p: Seq<char>, open: int, close: int) -> Seq<char> {
    if open + 1 < close {
        p.subrange(open + 1, close)
    } else {
        seq![]
    }
}

/// The regex text for the glob `p` from index `i` on: `**` (with a `/`
/// after it) is any text; `?(x)`, `+(x)`, `*(x)` and `@(x)` are the glob
/// `x`, whose `|` separates alternatives, taken zero or one times, one or
/// more times, zero or more times, or once; `*` is any text without `/`,
/// `?` one character, `.` a literal dot; a `[...]` class passes through;
/// regex metacharacters are escaped, except `|` inside a group; all else
/// stands for itself.
pub open spec fn glob_tr(p: Seq<char>, i: int, in_group: bool) -> Seq<char>
    decreases p.len(), p.len() - i,
{
    if i < 0 || i >= p.len() {
        seq![]
    } else {
        let c = p[i];
        let n = p.len();
        if c == '*' && i + 1 < n && p[i + 1] == '*' {
            let j = if i + 2 < n && p[i + 2] == '/' {
                i + 3
            } else {
                i + 2
            };
            seq!['.', '*'] + glob_tr(p, j, in_group)
        } else if (c == '?' || c == '+' || c == '*' || c == '@') && i + 1 < n && p[i + 1] == '(' {
            let end = group_scan_end(p, i + 1, 0);
            proof {
                lemma_group_scan_end_ge(p, i + 2, 1);
            }
            let group = group_content(p, i + 1, end - 1);
            let tail = if c == '@' {
                seq![]
            } else {
                seq![c]
            };
            seq!['('] + glob_tr(group, 0, true) + seq![')'] + tail + glob_tr(p, end, in_group)
        } else if c == '*' {
            seq!['[', '^', '/', ']', '*'] + glob_tr(p, i + 1, in_group)
        } else if c == '?' {
            seq!['.'] + glob_tr(p, i + 1, in_group)
        } else if c == '.' {
            seq!['\\', '.'] + glob_tr(p, i + 1, in_group)
        } else if c == '[' {
            let k = class_end(p, i + 1);
            proof {
                lemma_class_end_bounds(p, i + 1);
            }
            let last = if k < n {
                k
            } else {
                n - 1
            };
            p.subrange(i, last + 1) + if k < n {
                glob_tr(p, k + 1, in_group)
            } else {
                seq![]
            }
        } else if c == '|' && in_group {
            seq!['|'] + glob_tr(p, i + 1, in_group)
        } else if is_escaped(c) {
            seq!['\\', c] + glob_tr(p, i + 1, in_group)
        } else {
            seq![c] + glob_tr(p, i + 1, in_group)
        }
    }
}

/// The regex text of a whole glob pattern.
pub open spec fn glob_translate(p: Seq<char>, i: int) -> Seq<char> {
    glob_tr(p, i, false)
}

/// The regex that a glob pattern becomes: its translation, anchored at
/// the end.
pub open spec fn glob_regex(p: Seq<char>) -> Seq<char> {
    glob_translate(p, 0).push('$')
}

/// What a path is taken to be a test by when the regex cannot be built.
pub open spec fn looks_like_test(path: Seq<char>) -> bool {
    contains(path, ".test."@) || contains(path, ".spec."@) || contains(path, "__tests__"@)
}

/// Whether `path` matches the glob `pattern`: the regex search, or the
/// test-file look when the regex does not compile.
pub open spec fn glob_matches(pattern: Seq<char>, path: Seq<char>) -> bool {
    if regex_compiles(glob_regex(pattern)) {
        regex_is_match(glob_regex(pattern), path)
    } else {
        looks_like_test(path)
    }
}

/// The group that starts with the `(` at `start`: the content between the
/// outer parentheses, and the index of the matching `)` (or of the last
/// character when the group is not closed).
fn extract_group(chars: &Vec<char>, start: usize) -> (r: (Vec<char>, usize))
    requires
        start < chars@.len(),
        chars@[start as int] == '(',
    ensures
        r.1 as int == group_scan_end(chars@, start as int, 0) - 1,
        r.0@ == group_content(chars@, start as int, r.1 as int),
        start <= r.1 < chars@.len(),
{
    let n = chars.len();
    let mut depth: usize = 0;
    let mut end = start;
    while end < n
        invariant
            n == chars@.len(),
            start <= end <= n,
            chars@[start as int] == '(',
            depth <= end - start,
            end > start ==> depth >= 1,
            group_scan_end(chars@, start as int, 0) == group_scan_end(chars@, end as int, depth as int),
        decreases n - end,
    {
        let c = chars[end];
        if c == '(' {
            depth = depth + 1;
            end = end + 1;
        } else if c == ')' && depth == 1 {
            end = end + 1;
            proof {
                lemma_group_scan_end_ge(chars@, start as int, 0);
            }
            let group = content_between(chars, start, end - 1);
            return (group, end - 1);
        } else if c == ')' {
            depth = depth - 1;
            end = end + 1;
        } else {
            end = end + 1;
        }
    }
    let group = content_between(chars, start, end - 1);
    (group, end - 1)
}

fn content_between(chars: &Vec<char>, open: usize, close: usize) -> (r: Vec<char>)
    requires
        open <= close <= chars@.len(),
    ensures
        r@ == group_content(chars@, open as int, close as int),
{
    if open < close && open + 1 < close {
        crate::paths::copy_range(chars, open + 1, close)
    } else {
        Vec::new()
    }
}

fn push_all(out: &mut Vec<char>, piece: &Vec<char>)
    ensures
        final(out)@ == old(out)@ + piece@,
{
    let mut k: usize = 0;
    let ghost start = out@;
    while k < piece.len()
        invariant
            k <= piece@.len(),
            out@ == start + piece@.take(k as int),
        decreases piece@.len() - k,
    {
        out.push(piece[k]);
        k = k + 1;
        assert(out@ =~= start + piece@.take(k as int));
    }
    assert(piece@.take(piece@.len() as int) =~= piece@);
}

/// The regex text of the glob `chars`; inside a group, `|` separates
/// alternatives.
#[verifier::rlimit(60)]
fn translate_chars(chars: &Vec<char>, in_group: bool) -> (r: Vec<char>)
    ensures
        r@ == glob_tr(chars@, 0, in_group),
    decreases chars@.len(),
{
    let n = chars.len();
    let mut out: Vec<char> = Vec::new();
    let mut i: usize = 0;
    while i < n
        invariant
            n == chars@.len(),
            i <= n,
            out@ + glob_tr(chars@, i as int, in_group) == glob_tr(chars@, 0, in_group),
        decreases n + 1 - i,
    {
        let ghost before = out@;
        let c = chars[i];
        if c == '*' && i + 1 < n && chars[i + 1] == '*' {
            out.push('.');
            out.push('*');
            i = i + 2;
            if i < n && chars[i] == '/' {
                i = i + 1;
            }
            assert(out@ =~= before + seq!['.', '*']);
        } else if (c == '?' || c == '+' || c == '*' || c == '@') && i + 1 < n && chars[i + 1] == '(' {
            let (group, end) = extract_group(chars, i + 1);
            proof {
                lemma_group_scan_end_ge(chars@, i + 2, 1);
            }
            let inner = translate_chars(&group, true);
            out.push('(');
            push_all(&mut out, &inner);
            out.push(')');
            if c != '@' {
                out.push(c);
            }
            let ghost tail = if c == '@' {
                seq![]
            } else {
                seq![c]
            };
            assert(out@ =~= before + (seq!['('] + inner@ + seq![')'] + tail));
            i = end + 1;
        } else if c == '*' {
            out.push('[');
            out.push('^');
            out.push('/');
            out.push(']');
            out.push('*');
            i = i + 1;
            assert(out@ =~= before + seq!['[', '^', '/', ']', '*']);
        } else if c == '?' {
            out.push('.');
            i = i + 1;
            assert(out@ =~= before + seq!['.']);
        } else if c == '.' {
            out.push('\\');
            out.push('.');
            i = i + 1;
            assert(out@ =~= before + seq!['\\', '.']);
        } else if c == '[' {
            let start = i;
            i = i + 1;
            proof {
                lemma_class_end_bounds(chars@, i as int);
            }
            while i < n && chars[i] != ']'
                invariant
                    n == chars@.len(),
                    start < i <= n,
                    class_end(chars@, start + 1) == class_end(chars@, i as int),
                decreases n - i,
            {
                i = i + 1;
            }
            let last = if i < n {
                i
            } else {
                n - 1
            };
            let class = crate::paths::copy_range(chars, start, last + 1);
            push_all(&mut out, &class);
            if i < n {
                i = i + 1;
            }
        } else if c == '|' && in_group {
            out.push('|');
            i = i + 1;
            assert(out@ =~= before + seq!['|']);
        } else if c == '(' || c == ')' || c == '{' || c == '}' || c == '^' || c == '$' || c == '|'
            || c == '\\' {
            out.push('\\');
            out.push(c);
            i = i + 1;
            assert(out@ =~= before + seq!['\\', c]);
        } else {
            out.push(c);
            i = i + 1;
            assert(out@ =~= before + seq![c]);
        }
    }
    assert(out@ =~= glob_tr(chars@, 0, in_group));
    out
}

/// The regex text of a Jest/minimatch glob pattern (without the end
/// anchor).
pub fn glob_to_regex(pattern: &str) -> (r: Vec<char>)
    ensures
        r@ == glob_translate(pattern@, 0),
{
    let chars = chars_of(pattern);
    translate_chars(&chars, false)
}

/// What `glob_match` answers once the regex search has been tried: the
/// search result, or, when the regex did not compile, whether the path
/// looks like a test file.
pub fn glob_match_outcome(search: Option<bool>, path: &str) -> (r: bool)
    ensures
        r == match search {
            Some(b) => b,
            None => looks_like_test(path@),
        },
{
    match search {
        Some(b) => b,
        None => {
            let p = chars_of(path);
            contains_exec(&p, &chars_of(".test.")) || contains_exec(&p, &chars_of(".spec."))
                || contains_exec(&p, &chars_of("__tests__"))
        },
    }
}

/// Whether `path` matches the Jest/minimatch glob `pattern`: the pattern
/// is turned into a regex anchored at the end and searched in the path; if
/// that regex does not compile, the path matches when it looks like a
/// test file.
pub fn glob_match(pattern: &str, path: &str) -> (r: bool)
    ensures
        r == glob_matches(pattern@, path@),
{
    let mut re = glob_to_regex(pattern);
    re.push('$');
    let re_text = string_from_chars(&re);
    let search = regex_search(re_text.as_str(), path);
    glob_match_outcome(search, path)
}

/// Whether a path lies within a base directory, given both as resolved by
/// `canonicalize` (`None` where resolving failed): true exactly when both
/// resolved and the base's components are a prefix of the path's.
pub fn is_safe_path(canonical: Option<&str>, base_canonical: Option<&str>) -> (r: bool)
    ensures
        r == match (canonical, base_canonical) {
            (Some(p), Some(b)) => comps_starts_with(path_comps(p@), path_comps(b@)),
            _ => false,
        },
{
    match (canonical, base_canonical) {
        (Some(p), Some(b)) => {
            let pc = components(p);
            let bc = components(b);
            assert(comps_view(pc@).take(pc@.len() as int) =~= comps_view(pc@));
            assert(comps_view(bc@).take(bc@.len() as int) =~= comps_view(bc@));
            comps_starts_with_exec(&pc, pc.len(), &bc, bc.len())
        },
        _ => false,
    }
}

} // verus!
