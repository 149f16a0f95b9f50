//! Character-level helpers shared by the path, glob and report code.

use vstd::prelude::*;

verus! {

/// The characters of `s`, in order.
pub fn chars_of(s: &str) -> (out: Vec<char>)
    ensures
        out@ == s@,
{
    let mut out: Vec<char> = Vec::new();
    for c in it: s.chars()
        invariant
            out@ == it.seq().take(it.index() as int),
    {
        out.push(c);
    }
    out
}

/// `String::push` appends one character.
pub assume_specification[ String::push ](s: &mut String, ch: char)
    ensures
        final(s)@ == old(s)@.push(ch),
;

/// The string made of the characters of `v`.
pub fn string_from_chars(v: &Vec<char>) -> (s: String)
    ensures
        s@ == v@,
{
    let mut s = String::new();
    let mut i: usize = 0;
    while i < v.len()
        invariant
            i <= v@.len(),
            s@ == v@.take(i as int),
        decreases v@.len() - i,
    {
        s.push(v[i]);
        i = i + 1;
        assert(s@ =~= v@.take(i as int));
    }
    assert(v@.take(v@.len() as int) =~= v@);
    s
}

/// `suf` is a suffix of `s`.
pub open spec fn ends_with(s: Seq<char>, suf: Seq<char>) -> bool {
    suf.len() <= s.len() && s.skip(s.len() - suf.len()) == suf
}

/// `pre` is a prefix of `s`.
pub open spec fn starts_with(s: Seq<char>, pre: Seq<char>) -> bool {
    pre.len() <= s.len() && s.take(pre.len() as int) == pre
}

/// `t` occurs in `s` starting at index `i`.
pub open spec fn occurs_at(s: Seq<char>, t: Seq<char>, i: int) -> bool {
    0 <= i && i + t.len() <= s.len() && s.subrange(i, i + t.len()) == t
}

/// `t` occurs somewhere in `s`.
pub open spec fn contains(s: Seq<char>, t: Seq<char>) -> bool {
    exists|i: int| occurs_at(s, t, i)
}

/// `s` with every trailing repetition of the non-empty `suf` removed, as
/// `str::trim_end_matches` does.
pub open spec fn trim_end_all(s: Seq<char>, suf: Seq<char>) -> Seq<char>
    decreases s.len(),
{
    if suf.len() > 0 && ends_with(s, suf) {
        trim_end_all(s.take(s.len() - suf.len()), suf)
    } else {
        s
    }
}

/// Whether `t` occurs in `s` at index `i`.
pub fn occurs_at_exec(s: &Vec<char>, t: &Vec<char>, i: usize) -> (r: bool)
    ensures
        r == occurs_at(s@, t@, i as int),
{
    if i > s.len() || t.len() > s.len() - i {
        return false;
    }
    let mut k: usize = 0;
    while k < t.len()
        invariant
            i + t@.len() <= s@.len(),
            s@.len() == s.len(),
            k <= t@.len(),
            forall|m: int| 0 <= m < k ==> s@[i + m] == t@[m],
        decreases t@.len() - k,
    {
        if s[i + k] != t[k] {
            assert(s@.subrange(i as int, i + t@.len())[k as int] != t@[k as int]);
            return false;
        }
        k = k + 1;
    }
    assert(s@.subrange(i as int, i + t@.len()) =~= t@);
    true
}

/// Whether `s` ends with `suf`.
pub fn ends_with_exec(s: &Vec<char>, suf: &Vec<char>) -> (r: bool)
    ensures
        r == ends_with(s@, suf@),
{
    if suf.len() > s.len() {
        return false;
    }
    let r = occurs_at_exec(s, suf, s.len() - suf.len());
    assert(s@.subrange(s@.len() - suf@.len(), s@.len() as int) =~= s@.skip(s@.len() - suf@.len()));
    r
}

/// Whether `s` starts with `pre`.
pub fn starts_with_exec(s: &Vec<char>, pre: &Vec<char>) -> (r: bool)
    ensures
        r == starts_with(s@, pre@),
{
    let r = occurs_at_exec(s, pre, 0);
    assert(pre@.len() <= s@.len() ==> s@.subrange(0, pre@.len() as int) =~= s@.take(pre@.len() as int));
    r
}

/// Whether `t` occurs anywhere in `s`.
pub fn contains_exec(s: &Vec<char>, t: &Vec<char>) -> (r: bool)
    ensures
        r == contains(s@, t@),
{
    let mut i: usize = 0;
    while i < s.len()
        invariant
            i <= s@.len(),
            forall|j: int| 0 <= j < i ==> !occurs_at(s@, t@, j),
        decreases s@.len() - i,
    {
        if occurs_at_exec(s, t, i) {
            return true;
        }
        i = i + 1;
    }
    if occurs_at_exec(s, t, i) {
        return true;
    }
    assert forall|j: int| !occurs_at(s@, t@, j) by {
        if 0 <= j && j < i {
        } else if j == i {
        }
    }
    false
}

/// `s` with every trailing repetition of `suf` removed.
pub fn trim_end_all_exec(s: &Vec<char>, suf: &Vec<char>) -> (r: Vec<char>)
    requires
        suf@.len() > 0,
    ensures
        r@ == trim_end_all(s@, suf@),
{
    let mut cur: Vec<char> = Vec::new();
    let mut i: usize = 0;
    while i < s.len()
        invariant
            i <= s@.len(),
            cur@ == s@.take(i as int),
        decreases s@.len() - i,
    {
        cur.push(s[i]);
        i = i + 1;
        assert(cur@ =~= s@.take(i as int));
    }
    assert(s@.take(s@.len() as int) =~= s@);
    while ends_with_exec(&cur, suf)
        invariant
            suf@.len() > 0,
            trim_end_all(s@, suf@) == trim_end_all(cur@, suf@),
        decreases cur@.len(),
    {
        let keep = cur.len() - suf.len();
        let ghost prev = cur@;
        cur.truncate(keep);
        assert(cur@ =~= prev.take(prev.len() - suf@.len()));
    }
    cur
}

/// The decimal digit characters, by value.
pub open spec fn digit_chars() -> Seq<char> {
    seq!['0', '1', '2', '3', '4', '5', '6', '7', '8', '9']
}

/// The decimal representation of `n`, without leading zeros.
pub open spec fn decimal(n: nat) -> Seq<char>
    decreases n,
{
    if n < 10 {
        seq![digit_chars()[n as int]]
    } else {
        decimal(n / 10).push(digit_chars()[(n % 10) as int])
    }
}

fn digit_char(d: u64) -> (c: char)
    requires
        d < 10,
    ensures
        c == digit_chars()[d as int],
{
    if d == 0 {
        '0'
    } else if d == 1 {
        '1'
    } else if d == 2 {
        '2'
    } else if d == 3 {
        '3'
    } else if d == 4 {
        '4'
    } else if d == 5 {
        '5'
    } else if d == 6 {
        '6'
    } else if d == 7 {
        '7'
    } else if d == 8 {
        '8'
    } else {
        '9'
    }
}

/// Appends the decimal representation of `n`.
pub fn push_decimal(out: &mut Vec<char>, n: u64)
    ensures
        final(out)@ == old(out)@ + decimal(n as nat),
    decreases n,
{
    if n < 10 {
        out.push(digit_char(n));
        assert(final(out)@ =~= old(out)@ + decimal(n as nat)) by {
            assert(decimal(n as nat) == seq![digit_chars()[n as int]]);
        }
    } else {
        push_decimal(out, n / 10);
        out.push(digit_char(n % 10));
        assert(out@ =~= old(out)@ + decimal(n as nat));
    }
}

/// Appends the characters of `s`.
pub fn push_str(out: &mut Vec<char>, s: &str)
    ensures
        final(out)@ == old(out)@ + s@,
{
    let cs = chars_of(s);
    let mut k: usize = 0;
    let ghost start = out@;
    while k < cs.len()
        invariant
            k <= cs@.len(),
            cs@ == s@,
            out@ == start + cs@.take(k as int),
        decreases cs@.len() - k,
    {
        out.push(cs[k]);
        k = k + 1;
        assert(out@ =~= start + cs@.take(k as int));
    }
    assert(cs@.take(cs@.len() as int) =~= cs@);
}

/// The decimal representation of `n` as a string.
pub fn decimal_string(n: u64) -> (s: String)
    ensures
        s@ == decimal(n as nat),
{
    let mut v: Vec<char> = Vec::new();
    push_decimal(&mut v, n);
    assert(v@ =~= decimal(n as nat));
    string_from_chars(&v)
}

/// Whether two strings are equal.
pub fn str_equal(a: &str, b: &str) -> (r: bool)
    ensures
        r == (a@ == b@),
{
    let x = chars_of(a);
    let y = chars_of(b);
    crate::paths::chars_equal(&x, &y)
}

/// A copy of the strings of `v`.
pub fn copy_strings(v: &[String]) -> (out: Vec<String>)
    ensures
        out@ == v@,
{
    let mut out: Vec<String> = Vec::new();
    let mut i: usize = 0;
    while i < v.len()
        invariant
            i <= v@.len(),
            out@ == v@.take(i as int),
        decreases v@.len() - i,
    {
        out.push(v[i].clone());
        i = i + 1;
        assert(out@ =~= v@.take(i as int));
    }
    assert(v@.take(v@.len() as int) =~= v@);
    out
}

/// `s` with each occurrence of the non-empty `pat`, taken left to right
/// without overlap, replaced by `rep`, as `str::replace` does.
pub open spec fn replace_all(s: Seq<char>, pat: Seq<char>, rep: Seq<char>) -> Seq<char>
    decreases s.len(),
{
    if pat.len() == 0 || s.len() == 0 {
        s
    } else if starts_with(s, pat) {
        rep + replace_all(s.skip(pat.len() as int), pat, rep)
    } else {
        seq![s[0]] + replace_all(s.skip(1), pat, rep)
    }
}

/// `s` with every occurrence of `pat` replaced by `rep`.
pub fn replace_all_exec(s: &Vec<char>, pat: &Vec<char>, rep: &Vec<char>) -> (r: Vec<char>)
    requires
        pat@.len() > 0,
    ensures
        r@ == replace_all(s@, pat@, rep@),
{
    let mut out: Vec<char> = Vec::new();
    let mut i: usize = 0;
    let n = s.len();
    assert(s@.skip(0) =~= s@);
    while i < n
        invariant
            n == s@.len(),
            pat@.len() > 0,
            i <= n,
            out@ + replace_all(s@.skip(i as int), pat@, rep@) == replace_all(s@, pat@, rep@),
        decreases n - i,
    {
        let ghost rest = s@.skip(i as int);
        let hit = occurs_at_exec(s, pat, i);
        if hit {
            assert(rest.take(pat@.len() as int) =~= s@.subrange(i as int, i + pat@.len()));
            assert(rest.skip(pat@.len() as int) =~= s@.skip(i + pat@.len()));
            let ghost before = out@;
            let mut k: usize = 0;
            while k < rep.len()
                invariant
                    k <= rep@.len(),
                    out@ == before + rep@.take(k as int),
                decreases rep@.len() - k,
            {
                out.push(rep[k]);
                k = k + 1;
                assert(out@ =~= before + rep@.take(k as int));
            }
            assert(rep@.take(rep@.len() as int) =~= rep@);
            assert(out@ + replace_all(s@.skip(i + pat@.len()), pat@, rep@) =~= before + (rep@ + replace_all(rest.skip(pat@.len() as int), pat@, rep@)));
            i = i + pat.len();
        } else {
            assert(!starts_with(rest, pat@)) by {
                if starts_with(rest, pat@) {
                    assert(rest.take(pat@.len() as int) =~= s@.subrange(i as int, i + pat@.len()));
                }
            }
            assert(rest.skip(1) =~= s@.skip(i + 1));
            assert(rest[0] == s@[i as int]);
            let ghost before = out@;
            out.push(s[i]);
            assert(out@ + replace_all(s@.skip(i + 1), pat@, rep@) =~= before + (seq![rest[0]] + replace_all(rest.skip(1), pat@, rep@)));
            i = i + 1;
        }
    }
    assert(s@.skip(n as int) =~= Seq::<char>::empty());
    assert(out@ + Seq::<char>::empty() =~= out@);
    out
}


// ---------------------------------------------------------------------
// Whitespace, lines and splitting, as `str` methods read them
// ---------------------------------------------------------------------

/// A character of Unicode's `White_Space` property, which
/// `char::is_whitespace` tests.
pub open spec fn is_ws(c: char) -> bool {
    let v = c as u32;
    ||| 0x09 <= v <= 0x0d
    ||| v == 0x20
    ||| v == 0x85
    ||| v == 0xa0
    ||| v == 0x1680
    ||| 0x2000 <= v <= 0x200a
    ||| v == 0x2028
    ||| v == 0x2029
    ||| v == 0x202f
    ||| v == 0x205f
    ||| v == 0x3000
}

/// Whether a character is whitespace.
pub fn is_ws_exec(c: char) -> (r: bool)
    ensures
        r == is_ws(c),
{
    let v = c as u32;
    (0x09 <= v && v <= 0x0d) || v == 0x20 || v == 0x85 || v == 0xa0 || v == 0x1680 || (0x2000 <= v
        && v <= 0x200a) || v == 0x2028 || v == 0x2029 || v == 0x202f || v == 0x205f || v == 0x3000
}

/// `s` without its leading whitespace.
pub open spec fn trim_start_ws(s: Seq<char>) -> Seq<char>
    decreases s.len(),
{
    if s.len() > 0 && is_ws(s[0]) {
        trim_start_ws(s.skip(1))
    } else {
        s
    }
}

/// `s` without its trailing whitespace.
pub open spec fn trim_end_ws(s: Seq<char>) -> Seq<char>
    decreases s.len(),
{
    if s.len() > 0 && is_ws(s.last()) {
        trim_end_ws(s.drop_last())
    } else {
        s
    }
}

/// `s` without leading and trailing whitespace, as `str::trim` gives it.
pub open spec fn trim_ws(s: Seq<char>) -> Seq<char> {
    trim_end_ws(trim_start_ws(s))
}

/// The characters of `s` without leading and trailing whitespace.
pub fn trim_chars(s: &Vec<char>) -> (r: Vec<char>)
    ensures
        r@ == trim_ws(s@),
{
    let n = s.len();
    let mut lo: usize = 0;
    assert(s@.skip(0) =~= s@);
    while lo < n && is_ws_exec(s[lo])
        invariant
            lo <= n,
            n == s@.len(),
            trim_start_ws(s@.skip(lo as int)) == trim_start_ws(s@),
        decreases n - lo,
    {
        assert(s@.skip(lo as int).skip(1) =~= s@.skip(lo + 1));
        lo = lo + 1;
    }
    let ghost mid = s@.skip(lo as int);
    assert(trim_start_ws(mid) == mid);
    let mut hi: usize = n;
    assert(s@.subrange(lo as int, n as int) =~= mid);
    while hi > lo && is_ws_exec(s[hi - 1])
        invariant
            lo <= hi <= n,
            n == s@.len(),
            trim_end_ws(s@.subrange(lo as int, hi as int)) == trim_end_ws(mid),
        decreases hi - lo,
    {
        assert(s@.subrange(lo as int, hi as int).drop_last() =~= s@.subrange(lo as int, hi - 1));
        hi = hi - 1;
    }
    let ghost rest = s@.subrange(lo as int, hi as int);
    assert(trim_end_ws(rest) == rest) by {
        if rest.len() > 0 {
            assert(rest.last() == s@[hi - 1]);
        }
    }
    crate::paths::copy_range(s, lo, hi)
}

/// The lines of `s` read from a line in progress `cur`: each `\n` ends a
/// line, and a `\r` before it is dropped; what follows the last `\n`, if
/// anything, is the last line.
pub open spec fn lines_from(s: Seq<char>, cur: Seq<char>) -> Seq<Seq<char>>
    decreases s.len(),
{
    if s.len() == 0 {
        if cur.len() > 0 {
            seq![cur]
        } else {
            seq![]
        }
    } else if s[0] == '\n' {
        seq![strip_cr(cur)] + lines_from(s.skip(1), seq![])
    } else {
        lines_from(s.skip(1), cur.push(s[0]))
    }
}

/// A line without the `\r` of a `\r\n` ending.
pub open spec fn strip_cr(line: Seq<char>) -> Seq<char> {
    if line.len() > 0 && line.last() == '\r' {
        line.drop_last()
    } else {
        line
    }
}

/// The lines of `s`, as `str::lines` yields them.
pub open spec fn lines_of(s: Seq<char>) -> Seq<Seq<char>> {
    lines_from(s, seq![])
}

/// The lines of `s`.
pub fn lines(s: &str) -> (r: Vec<Vec<char>>)
    ensures
        r@.map_values(|l: Vec<char>| l@) == lines_of(s@),
{
    let cs = chars_of(s);
    let n = cs.len();
    let mut out: Vec<Vec<char>> = Vec::new();
    let mut cur: Vec<char> = Vec::new();
    let mut i: usize = 0;
    assert(cs@.skip(0) =~= cs@);
    while i < n
        invariant
            i <= n,
            n == cs@.len(),
            cs@ == s@,
            out@.map_values(|l: Vec<char>| l@) + lines_from(cs@.skip(i as int), cur@) == lines_of(s@),
        decreases n - i,
    {
        let c = cs[i];
        let ghost rest = cs@.skip(i as int);
        assert(rest[0] == c);
        assert(rest.skip(1) =~= cs@.skip(i + 1));
        if c == '\n' {
            let mut line = cur;
            if line.len() > 0 && line[line.len() - 1] == '\r' {
                line.pop();
            }
            assert(line@ == strip_cr(cur@));
            let ghost before = out@.map_values(|l: Vec<char>| l@);
            out.push(line);
            assert(out@.map_values(|l: Vec<char>| l@) =~= before.push(strip_cr(cur@)));
            assert(before.push(strip_cr(cur@)) + lines_from(cs@.skip(i + 1), seq![]) =~= before + (seq![strip_cr(cur@)] + lines_from(rest.skip(1), seq![])));
            cur = Vec::new();
            assert(cur@ =~= Seq::<char>::empty());
        } else {
            cur.push(c);
        }
        i = i + 1;
    }
    assert(cs@.skip(n as int) =~= Seq::<char>::empty());
    if cur.len() > 0 {
        let ghost before = out@.map_values(|l: Vec<char>| l@);
        let ghost last = cur@;
        out.push(cur);
        assert(out@.map_values(|l: Vec<char>| l@) =~= before + seq![last]);
    } else {
        assert(out@.map_values(|l: Vec<char>| l@) + Seq::<Seq<char>>::empty() =~= out@.map_values(|l: Vec<char>| l@));
    }
    out
}

/// The last piece of `s` split at each occurrence of the non-empty `pat`,
/// found left to right without overlap, as `str::split(pat).last()` gives
/// it.
pub open spec fn last_piece(s: Seq<char>, pat: Seq<char>) -> Seq<char>
    decreases s.len(),
{
    if pat.len() == 0 || s.len() == 0 {
        s
    } else if starts_with(s, pat) {
        last_piece(s.skip(pat.len() as int), pat)
    } else if contains(s.skip(1), pat) {
        last_piece(s.skip(1), pat)
    } else {
        s
    }
}

proof fn lemma_starts_with_occurs(s: Seq<char>, pat: Seq<char>)
    ensures
        starts_with(s, pat) == occurs_at(s, pat, 0),
{
    if starts_with(s, pat) {
        assert(s.subrange(0, pat.len() as int) =~= s.take(pat.len() as int));
    }
    if occurs_at(s, pat, 0) {
        assert(s.subrange(0, pat.len() as int) =~= s.take(pat.len() as int));
    }
}

proof fn lemma_contains_shift(s: Seq<char>, pat: Seq<char>)
    requires
        s.len() > 0,
        pat.len() > 0,
    ensures
        contains(s, pat) && !starts_with(s, pat) ==> contains(s.skip(1), pat),
        contains(s.skip(1), pat) ==> contains(s, pat),
{
    lemma_starts_with_occurs(s, pat);
    if contains(s, pat) && !starts_with(s, pat) {
        let i = choose|i: int| occurs_at(s, pat, i);
        assert(i != 0);
        assert(s.skip(1).subrange(i - 1, i - 1 + pat.len()) =~= s.subrange(i, i + pat.len()));
        assert(occurs_at(s.skip(1), pat, i - 1));
    }
    if contains(s.skip(1), pat) {
        let i = choose|i: int| occurs_at(s.skip(1), pat, i);
        assert(s.skip(1).subrange(i, i + pat.len()) =~= s.subrange(i + 1, i + 1 + pat.len()));
        assert(occurs_at(s, pat, i + 1));
    }
}

proof fn lemma_last_piece_plain(s: Seq<char>, pat: Seq<char>)
    requires
        !contains(s, pat),
    ensures
        last_piece(s, pat) == s,
{
    if pat.len() > 0 && s.len() > 0 {
        lemma_starts_with_occurs(s, pat);
        lemma_contains_shift(s, pat);
    }
}

/// The last piece of `s` split at the non-empty `pat`.
pub fn last_piece_exec(s: &Vec<char>, pat: &Vec<char>) -> (r: Vec<char>)
    requires
        pat@.len() > 0,
    ensures
        r@ == last_piece(s@, pat@),
{
    let n = s.len();
    let m = pat.len();
    let mut i: usize = 0;
    let mut start: usize = 0;
    assert(s@.skip(0) =~= s@);
    proof {
        if !contains(s@, pat@) {
            lemma_last_piece_plain(s@, pat@);
        }
    }
    while m <= n - i
        invariant
            start <= i <= n,
            n == s@.len(),
            m == pat@.len(),
            m > 0,
            last_piece(s@, pat@) == if contains(s@.skip(i as int), pat@) {
                last_piece(s@.skip(i as int), pat@)
            } else {
                s@.skip(start as int)
            },
        decreases n - i,
    {
        let ghost t = s@.skip(i as int);
        proof {
            lemma_starts_with_occurs(t, pat@);
            lemma_contains_shift(t, pat@);
        }
        if occurs_at_exec(s, pat, i) {
            assert(t.subrange(0, m as int) =~= s@.subrange(i as int, i + m));
            assert(t.skip(m as int) =~= s@.skip(i + m));
            assert(contains(t, pat@)) by {
                assert(occurs_at(t, pat@, 0));
            }
            i = i + m;
            start = i;
            proof {
                if !contains(s@.skip(i as int), pat@) {
                    lemma_last_piece_plain(s@.skip(i as int), pat@);
                }
            }
        } else {
            assert(!occurs_at(t, pat@, 0)) by {
                if occurs_at(t, pat@, 0) {
                    assert(t.subrange(0, m as int) =~= s@.subrange(i as int, i + m));
                }
            }
            assert(t.skip(1) =~= s@.skip(i + 1));
            i = i + 1;
        }
    }
    assert(!contains(s@.skip(i as int), pat@)) by {
        if contains(s@.skip(i as int), pat@) {
            let k = choose|k: int| occurs_at(s@.skip(i as int), pat@, k);
        }
    }
    crate::paths::copy_range(s, start, n)
}


/// The whitespace-separated fields of `s` read from a field in progress
/// `cur`, as `str::split_whitespace` yields them.
pub open spec fn fields_from(s: Seq<char>, cur: Seq<char>) -> Seq<Seq<char>>
    decreases s.len(),
{
    if s.len() == 0 {
        if cur.len() > 0 {
            seq![cur]
        } else {
            seq![]
        }
    } else if is_ws(s[0]) {
        (if cur.len() > 0 {
            seq![cur]
        } else {
            seq![]
        }) + fields_from(s.skip(1), seq![])
    } else {
        fields_from(s.skip(1), cur.push(s[0]))
    }
}

/// The whitespace-separated fields of `s`.
pub open spec fn fields_of(s: Seq<char>) -> Seq<Seq<char>> {
    fields_from(s, seq![])
}

/// The whitespace-separated fields of `s`.
pub fn fields(s: &str) -> (r: Vec<Vec<char>>)
    ensures
        r@.map_values(|l: Vec<char>| l@) == fields_of(s@),
{
    let cs = chars_of(s);
    let n = cs.len();
    let mut out: Vec<Vec<char>> = Vec::new();
    let mut cur: Vec<char> = Vec::new();
    let mut i: usize = 0;
    assert(cs@.skip(0) =~= cs@);
    while i < n
        invariant
            i <= n,
            n == cs@.len(),
            cs@ == s@,
            out@.map_values(|l: Vec<char>| l@) + fields_from(cs@.skip(i as int), cur@) == fields_of(s@),
        decreases n - i,
    {
        let c = cs[i];
        let ghost rest = cs@.skip(i as int);
        assert(rest[0] == c);
        assert(rest.skip(1) =~= cs@.skip(i + 1));
        if is_ws_exec(c) {
            let ghost before = out@.map_values(|l: Vec<char>| l@);
            let ghost cv = cur@;
            if cur.len() > 0 {
                out.push(cur);
                assert(out@.map_values(|l: Vec<char>| l@) =~= before.push(cv));
                assert(before.push(cv) + fields_from(cs@.skip(i + 1), seq![]) =~= before + (seq![cv] + fields_from(rest.skip(1), seq![])));
            } else {
                assert(before + fields_from(cs@.skip(i + 1), seq![]) =~= before + (Seq::<Seq<char>>::empty() + fields_from(rest.skip(1), seq![])));
            }
            cur = Vec::new();
            assert(cur@ =~= Seq::<char>::empty());
        } else {
            cur.push(c);
        }
        i = i + 1;
    }
    assert(cs@.skip(n as int) =~= Seq::<char>::empty());
    if cur.len() > 0 {
        let ghost before = out@.map_values(|l: Vec<char>| l@);
        let ghost last = cur@;
        out.push(cur);
        assert(out@.map_values(|l: Vec<char>| l@) =~= before + seq![last]);
    } else {
        assert(out@.map_values(|l: Vec<char>| l@) + Seq::<Seq<char>>::empty() =~= out@.map_values(|l: Vec<char>| l@));
    }
    out
}

} // verus!
