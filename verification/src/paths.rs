//! A model of Unix paths as `std::path` reads them: components, parent,
//! file name, stem, extension, prefix and suffix tests, and the order in
//! which `PathBuf`s sort.

use vstd::prelude::*;
use crate::text::chars_of;

verus! {

/// One component of a Unix path, as `std::path::Component` yields it.
pub enum Comp {
    RootDir,
    CurDir,
    ParentDir,
    Normal(Seq<char>),
}

/// What one piece between separators contributes: nothing for an empty
/// piece or `.`, `ParentDir` for `..`, else a normal component.
pub open spec fn piece_comp(p: Seq<char>) -> Seq<Comp> {
    if p.len() == 0 || p == seq!['.'] {
        seq![]
    } else if p == seq!['.', '.'] {
        seq![Comp::ParentDir]
    } else {
        seq![Comp::Normal(p)]
    }
}

/// Reading the characters left to right: the components finished so far
/// and the piece read since the last separator.
pub open spec fn scan(s: Seq<char>) -> (Seq<Comp>, Seq<char>)
    decreases s.len(),
{
    if s.len() == 0 {
        (seq![], seq![])
    } else {
        let prev = scan(s.drop_last());
        if s.last() == '/' {
            (prev.0 + piece_comp(prev.1), seq![])
        } else {
            (prev.0, prev.1.push(s.last()))
        }
    }
}

/// The component in front of the body: the root for an absolute path, a
/// leading `.` for a path that starts with `./` or is `.`.
pub open spec fn lead_comps(s: Seq<char>) -> Seq<Comp> {
    if s.len() > 0 && s[0] == '/' {
        seq![Comp::RootDir]
    } else if s.len() > 0 && s[0] == '.' && (s.len() == 1 || s[1] == '/') {
        seq![Comp::CurDir]
    } else {
        seq![]
    }
}

/// The components of the path `s`.
pub open spec fn path_comps(s: Seq<char>) -> Seq<Comp> {
    let sc = scan(s);
    lead_comps(s) + sc.0 + piece_comp(sc.1)
}

/// Two paths are equal when their components are.
pub open spec fn path_eq(a: Seq<char>, b: Seq<char>) -> bool {
    path_comps(a) == path_comps(b)
}

/// The components of the parent, if the path has one.
pub open spec fn parent_comps(c: Seq<Comp>) -> Option<Seq<Comp>> {
    if c.len() > 0 && !(c.last() is RootDir) {
        Some(c.drop_last())
    } else {
        None
    }
}

/// The final component's name, if it is a normal component.
pub open spec fn file_name(c: Seq<Comp>) -> Option<Seq<char>> {
    if c.len() > 0 && c.last() is Normal {
        Some(c.last()->Normal_0)
    } else {
        None
    }
}

/// The index of the last occurrence of `ch` in `s`, or -1.
pub open spec fn last_index_of(s: Seq<char>, ch: char) -> int
    decreases s.len(),
{
    if s.len() == 0 {
        -1
    } else if s.last() == ch {
        s.len() - 1
    } else {
        last_index_of(s.drop_last(), ch)
    }
}

proof fn lemma_last_index_bounds(s: Seq<char>, ch: char)
    ensures
        -1 <= last_index_of(s, ch) < s.len(),
    decreases s.len(),
{
    if s.len() > 0 {
        lemma_last_index_bounds(s.drop_last(), ch);
    }
}

/// The stem of a file name: all before the last `.`, unless that dot is
/// the first character or absent, in which case the whole name.
pub open spec fn name_stem(name: Seq<char>) -> Seq<char> {
    let d = last_index_of(name, '.');
    if d <= 0 {
        name
    } else {
        name.take(d)
    }
}

/// The extension of a file name: all after the last `.`, if that dot is
/// neither absent nor the first character.
pub open spec fn name_extension(name: Seq<char>) -> Option<Seq<char>> {
    let d = last_index_of(name, '.');
    if d <= 0 {
        None
    } else {
        Some(name.skip(d + 1))
    }
}

/// `file_stem()` of the path, with the empty string in place of `None`.
pub open spec fn stem_or_empty(c: Seq<Comp>) -> Seq<char> {
    match file_name(c) {
        Some(n) => name_stem(n),
        None => seq![],
    }
}

/// `extension()` of the path, with the empty string in place of `None`.
pub open spec fn extension_or_empty(c: Seq<Comp>) -> Seq<char> {
    match file_name(c) {
        Some(n) => match name_extension(n) {
            Some(e) => e,
            None => seq![],
        },
        None => seq![],
    }
}

/// `b` is a prefix of `a`, component by component.
pub open spec fn comps_starts_with(a: Seq<Comp>, b: Seq<Comp>) -> bool {
    b.len() <= a.len() && a.take(b.len() as int) == b
}

/// `b` is a suffix of `a`, component by component.
pub open spec fn comps_ends_with(a: Seq<Comp>, b: Seq<Comp>) -> bool {
    b.len() <= a.len() && a.skip(a.len() - b.len()) == b
}

// ---------------------------------------------------------------------
// Order
// ---------------------------------------------------------------------

/// Lexicographic order on characters by code point, from index `i` on.
pub open spec fn chars_lt_from(a: Seq<char>, b: Seq<char>, i: nat) -> bool
    decreases a.len() - i,
{
    if i >= a.len() {
        i < b.len()
    } else if i >= b.len() {
        false
    } else if a[i as int] != b[i as int] {
        (a[i as int] as int) < (b[i as int] as int)
    } else {
        chars_lt_from(a, b, i + 1)
    }
}

pub open spec fn chars_lt(a: Seq<char>, b: Seq<char>) -> bool {
    chars_lt_from(a, b, 0)
}

/// The rank of a component's kind in `std::path::Component`'s order.
pub open spec fn comp_rank(c: Comp) -> int {
    match c {
        Comp::RootDir => 1,
        Comp::CurDir => 2,
        Comp::ParentDir => 3,
        Comp::Normal(_) => 4,
    }
}

pub open spec fn comp_lt(a: Comp, b: Comp) -> bool {
    match (a, b) {
        (Comp::Normal(x), Comp::Normal(y)) => chars_lt(x, y),
        _ => comp_rank(a) < comp_rank(b),
    }
}

/// Lexicographic order on component sequences, from index `i` on.
pub open spec fn comps_lt_from(a: Seq<Comp>, b: Seq<Comp>, i: nat) -> bool
    decreases a.len() - i,
{
    if i >= a.len() {
        i < b.len()
    } else if i >= b.len() {
        false
    } else if a[i as int] != b[i as int] {
        comp_lt(a[i as int], b[i as int])
    } else {
        comps_lt_from(a, b, i + 1)
    }
}

pub open spec fn comps_lt(a: Seq<Comp>, b: Seq<Comp>) -> bool {
    comps_lt_from(a, b, 0)
}

/// The order in which `PathBuf`s sort.
pub open spec fn path_lt(a: Seq<char>, b: Seq<char>) -> bool {
    comps_lt(path_comps(a), path_comps(b))
}

proof fn lemma_chars_lt_asym(a: Seq<char>, b: Seq<char>, i: nat)
    ensures
        !(chars_lt_from(a, b, i) && chars_lt_from(b, a, i)),
    decreases a.len() - i,
{
    if i < a.len() && i < b.len() && a[i as int] == b[i as int] {
        lemma_chars_lt_asym(a, b, i + 1);
    }
}

proof fn lemma_chars_lt_total(a: Seq<char>, b: Seq<char>, i: nat)
    requires
        i <= a.len(),
        i <= b.len(),
        !chars_lt_from(a, b, i),
        !chars_lt_from(b, a, i),
    ensures
        a.len() == b.len(),
        forall|j: int| i <= j < a.len() ==> a[j] == b[j],
    decreases a.len() - i,
{
    if i < a.len() && i < b.len() {
        if a[i as int] != b[i as int] {
            assert((a[i as int] as int) != (b[i as int] as int));
        } else {
            lemma_chars_lt_total(a, b, i + 1);
        }
    }
}

proof fn lemma_chars_lt_trans(a: Seq<char>, b: Seq<char>, c: Seq<char>, i: nat)
    requires
        chars_lt_from(a, b, i),
        chars_lt_from(b, c, i),
    ensures
        chars_lt_from(a, c, i),
    decreases a.len() - i,
{
    if i < a.len() && i < b.len() && i < c.len() && a[i as int] == b[i as int] && b[i as int]
        == c[i as int] {
        lemma_chars_lt_trans(a, b, c, i + 1);
    }
}

proof fn lemma_comp_lt_asym(a: Comp, b: Comp)
    ensures
        !(comp_lt(a, b) && comp_lt(b, a)),
        !comp_lt(a, a),
{
    match (a, b) {
        (Comp::Normal(x), Comp::Normal(y)) => {
            lemma_chars_lt_asym(x, y, 0);
            lemma_chars_lt_asym(x, x, 0);
        },
        _ => {
            if let Comp::Normal(x) = a {
                lemma_chars_lt_asym(x, x, 0);
            }
        },
    }
}

proof fn lemma_comp_lt_total(a: Comp, b: Comp)
    requires
        !comp_lt(a, b),
        !comp_lt(b, a),
    ensures
        a == b,
{
    match (a, b) {
        (Comp::Normal(x), Comp::Normal(y)) => {
            lemma_chars_lt_total(x, y, 0);
            assert(x =~= y);
        },
        _ => {},
    }
}

proof fn lemma_comp_lt_trans(a: Comp, b: Comp, c: Comp)
    requires
        comp_lt(a, b),
        comp_lt(b, c),
    ensures
        comp_lt(a, c),
{
    match (a, b, c) {
        (Comp::Normal(x), Comp::Normal(y), Comp::Normal(z)) => {
            lemma_chars_lt_trans(x, y, z, 0);
        },
        _ => {},
    }
}

proof fn lemma_comps_lt_asym(a: Seq<Comp>, b: Seq<Comp>, i: nat)
    ensures
        !(comps_lt_from(a, b, i) && comps_lt_from(b, a, i)),
    decreases a.len() - i,
{
    if i < a.len() && i < b.len() {
        if a[i as int] == b[i as int] {
            lemma_comps_lt_asym(a, b, i + 1);
        } else {
            lemma_comp_lt_asym(a[i as int], b[i as int]);
        }
    }
}

proof fn lemma_comps_lt_irrefl(a: Seq<Comp>, i: nat)
    ensures
        !comps_lt_from(a, a, i),
    decreases a.len() - i,
{
    if i < a.len() {
        lemma_comps_lt_irrefl(a, i + 1);
    }
}

proof fn lemma_comps_lt_total(a: Seq<Comp>, b: Seq<Comp>, i: nat)
    requires
        i <= a.len(),
        i <= b.len(),
        !comps_lt_from(a, b, i),
        !comps_lt_from(b, a, i),
    ensures
        a.len() == b.len(),
        forall|j: int| i <= j < a.len() ==> a[j] == b[j],
    decreases a.len() - i,
{
    if i < a.len() && i < b.len() {
        if a[i as int] != b[i as int] {
            lemma_comp_lt_total(a[i as int], b[i as int]);
        } else {
            lemma_comps_lt_total(a, b, i + 1);
        }
    }
}

proof fn lemma_comps_lt_trans(a: Seq<Comp>, b: Seq<Comp>, c: Seq<Comp>, i: nat)
    requires
        comps_lt_from(a, b, i),
        comps_lt_from(b, c, i),
    ensures
        comps_lt_from(a, c, i),
    decreases a.len() - i,
{
    if i < a.len() && i < b.len() && i < c.len() {
        if a[i as int] == b[i as int] && b[i as int] == c[i as int] {
            lemma_comps_lt_trans(a, b, c, i + 1);
        } else if a[i as int] == b[i as int] {
        } else if b[i as int] == c[i as int] {
        } else {
            lemma_comp_lt_trans(a[i as int], b[i as int], c[i as int]);
            if a[i as int] == c[i as int] {
                lemma_comp_lt_asym(a[i as int], b[i as int]);
            }
        }
    }
}

/// The order on paths is a strict total order.
pub proof fn lemma_path_order(a: Seq<Comp>, b: Seq<Comp>, c: Seq<Comp>)
    ensures
        !comps_lt(a, a),
        !(comps_lt(a, b) && comps_lt(b, a)),
        !comps_lt(a, b) && !comps_lt(b, a) ==> a == b,
        comps_lt(a, b) && comps_lt(b, c) ==> comps_lt(a, c),
{
    lemma_comps_lt_irrefl(a, 0);
    lemma_comps_lt_asym(a, b, 0);
    if !comps_lt(a, b) && !comps_lt(b, a) {
        lemma_comps_lt_total(a, b, 0);
        assert(a =~= b);
    }
    if comps_lt(a, b) && comps_lt(b, c) {
        lemma_comps_lt_trans(a, b, c, 0);
    }
}

// ---------------------------------------------------------------------
// Executable side
// ---------------------------------------------------------------------

/// A path component held by value.
pub enum Component {
    RootDir,
    CurDir,
    ParentDir,
    Normal(Vec<char>),
}

impl View for Component {
    type V = Comp;

    open spec fn view(&self) -> Comp {
        match self {
            Component::RootDir => Comp::RootDir,
            Component::CurDir => Comp::CurDir,
            Component::ParentDir => Comp::ParentDir,
            Component::Normal(n) => Comp::Normal(n@),
        }
    }
}

pub open spec fn comps_view(v: Seq<Component>) -> Seq<Comp> {
    Seq::new(v.len(), |i: int| v[i]@)
}

proof fn lemma_comps_view_push(v: Seq<Component>, x: Component)
    ensures
        comps_view(v.push(x)) == comps_view(v).push(x@),
{
    assert(comps_view(v.push(x)) =~= comps_view(v).push(x@));
}

/// Appends what the piece `p` contributes to the components read so far.
fn push_piece(out: &mut Vec<Component>, p: Vec<char>)
    ensures
        comps_view(final(out)@) == comps_view(old(out)@) + piece_comp(p@),
{
    let n = p.len();
    if n == 0 || (n == 1 && p[0] == '.') {
        if n == 1 {
            assert(p@ =~= seq!['.']);
        }
        assert(comps_view(out@) + piece_comp(p@) =~= comps_view(out@));
    } else if n == 2 && p[0] == '.' && p[1] == '.' {
        assert(p@ =~= seq!['.', '.']);
        proof {
            lemma_comps_view_push(out@, Component::ParentDir);
        }
        out.push(Component::ParentDir);
        assert(comps_view(out@) =~= comps_view(old(out)@) + piece_comp(p@));
    } else {
        assert(p@ != seq!['.']) by {
            if p@ == seq!['.'] {
                assert(p@.len() == 1 && p@[0] == '.');
            }
        }
        assert(p@ != seq!['.', '.']) by {
            if p@ == seq!['.', '.'] {
                assert(p@.len() == 2 && p@[0] == '.' && p@[1] == '.');
            }
        }
        let ghost pv = p@;
        proof {
            lemma_comps_view_push(out@, Component::Normal(p));
        }
        out.push(Component::Normal(p));
        assert(comps_view(out@) =~= comps_view(old(out)@) + piece_comp(pv));
    }
}

/// Splits a path into its components.
pub fn components_of_chars(cs: &Vec<char>) -> (out: Vec<Component>)
    ensures
        comps_view(out@) == path_comps(cs@),
{
    let mut out: Vec<Component> = Vec::new();
    let n = cs.len();
    if n > 0 && cs[0] == '/' {
        out.push(Component::RootDir);
    } else if n > 0 && cs[0] == '.' && (n == 1 || cs[1] == '/') {
        out.push(Component::CurDir);
    }
    assert(comps_view(out@) =~= lead_comps(cs@));
    let mut cur: Vec<char> = Vec::new();
    let mut i: usize = 0;
    assert(cs@.take(0) =~= Seq::<char>::empty());
    while i < n
        invariant
            n == cs@.len(),
            i <= n,
            comps_view(out@) == lead_comps(cs@) + scan(cs@.take(i as int)).0,
            cur@ == scan(cs@.take(i as int)).1,
        decreases n - i,
    {
        let c = cs[i];
        let ghost t = cs@.take(i as int + 1);
        assert(t.drop_last() =~= cs@.take(i as int));
        assert(t.last() == c);
        if c == '/' {
            let piece = cur;
            cur = Vec::new();
            let ghost before = comps_view(out@);
            push_piece(&mut out, piece);
            assert(comps_view(out@) =~= lead_comps(cs@) + scan(t).0);
        } else {
            cur.push(c);
        }
        i = i + 1;
    }
    assert(cs@.take(n as int) =~= cs@);
    push_piece(&mut out, cur);
    assert(comps_view(out@) =~= path_comps(cs@));
    out
}

/// Splits a path string into its components.
pub fn components(s: &str) -> (out: Vec<Component>)
    ensures
        comps_view(out@) == path_comps(s@),
{
    let cs = chars_of(s);
    components_of_chars(&cs)
}

/// Whether two character sequences are equal.
pub fn chars_equal(a: &Vec<char>, b: &Vec<char>) -> (r: bool)
    ensures
        r == (a@ == b@),
{
    if a.len() != b.len() {
        return false;
    }
    let mut i: usize = 0;
    while i < a.len()
        invariant
            a@.len() == b@.len(),
            i <= a@.len(),
            forall|j: int| 0 <= j < i ==> a@[j] == b@[j],
        decreases a@.len() - i,
    {
        if a[i] != b[i] {
            return false;
        }
        i = i + 1;
    }
    assert(a@ =~= b@);
    true
}

fn chars_less(a: &Vec<char>, b: &Vec<char>) -> (r: bool)
    ensures
        r == chars_lt(a@, b@),
{
    let mut i: usize = 0;
    while i < a.len() && i < b.len()
        invariant
            i <= a@.len(),
            i <= b@.len(),
            chars_lt(a@, b@) == chars_lt_from(a@, b@, i as nat),
        decreases a@.len() - i,
    {
        let x = a[i];
        let y = b[i];
        if x != y {
            return x < y;
        }
        i = i + 1;
    }
    a.len() < b.len()
}

fn rank(c: &Component) -> (r: u8)
    ensures
        r as int == comp_rank(c@),
{
    match c {
        Component::RootDir => 1,
        Component::CurDir => 2,
        Component::ParentDir => 3,
        Component::Normal(_) => 4,
    }
}

fn comp_less(a: &Component, b: &Component) -> (r: bool)
    ensures
        r == comp_lt(a@, b@),
{
    match (a, b) {
        (Component::Normal(x), Component::Normal(y)) => chars_less(x, y),
        _ => rank(a) < rank(b),
    }
}

/// Whether the first `alen` components of `a` sort before the first
/// `blen` components of `b`.
pub fn comps_less(a: &Vec<Component>, alen: usize, b: &Vec<Component>, blen: usize) -> (r: bool)
    requires
        alen <= a@.len(),
        blen <= b@.len(),
    ensures
        r == comps_lt(comps_view(a@).take(alen as int), comps_view(b@).take(blen as int)),
{
    let ghost av = comps_view(a@).take(alen as int);
    let ghost bv = comps_view(b@).take(blen as int);
    let mut i: usize = 0;
    while i < alen && i < blen
        invariant
            alen <= a@.len(),
            blen <= b@.len(),
            av == comps_view(a@).take(alen as int),
            bv == comps_view(b@).take(blen as int),
            i <= alen,
            i <= blen,
            comps_lt(av, bv) == comps_lt_from(av, bv, i as nat),
        decreases alen - i,
    {
        assert(av[i as int] == a@[i as int]@);
        assert(bv[i as int] == b@[i as int]@);
        if comp_less(&a[i], &b[i]) {
            proof {
                lemma_comp_lt_asym(a@[i as int]@, b@[i as int]@);
            }
            return true;
        }
        if comp_less(&b[i], &a[i]) {
            proof {
                lemma_comp_lt_asym(a@[i as int]@, b@[i as int]@);
                lemma_comp_lt_asym(b@[i as int]@, a@[i as int]@);
            }
            return false;
        }
        proof {
            lemma_comp_lt_total(a@[i as int]@, b@[i as int]@);
        }
        i = i + 1;
    }
    alen < blen
}

/// Whether the first `alen` components of `a` equal the first `blen`
/// components of `b`.
pub fn comps_equal(a: &Vec<Component>, alen: usize, b: &Vec<Component>, blen: usize) -> (r: bool)
    requires
        alen <= a@.len(),
        blen <= b@.len(),
    ensures
        r == (comps_view(a@).take(alen as int) == comps_view(b@).take(blen as int)),
{
    let l1 = comps_less(a, alen, b, blen);
    let l2 = comps_less(b, blen, a, alen);
    proof {
        lemma_path_order(
            comps_view(a@).take(alen as int),
            comps_view(b@).take(blen as int),
            comps_view(b@).take(blen as int),
        );
    }
    !l1 && !l2
}

/// The number of components of the parent, if the first `len`
/// components have a parent.
pub fn parent_len(c: &Vec<Component>, len: usize) -> (r: Option<usize>)
    requires
        len <= c@.len(),
    ensures
        match parent_comps(comps_view(c@).take(len as int)) {
            Some(p) => r == Some((len - 1) as usize) && p == comps_view(c@).take(len - 1),
            None => r is None,
        },
{
    let ghost cv = comps_view(c@).take(len as int);
    if len == 0 {
        return None;
    }
    assert(cv.last() == c@[len - 1]@);
    assert(cv.drop_last() =~= comps_view(c@).take(len - 1));
    match &c[len - 1] {
        Component::RootDir => None,
        _ => Some(len - 1),
    }
}

/// The name of the final component, if it is a normal one.
pub fn file_name_of(c: &Vec<Component>) -> (r: Option<&Vec<char>>)
    ensures
        match file_name(comps_view(c@)) {
            Some(n) => r is Some && r->0@ == n,
            None => r is None,
        },
{
    let n = c.len();
    if n == 0 {
        return None;
    }
    assert(comps_view(c@).last() == c@[n - 1]@);
    match &c[n - 1] {
        Component::Normal(name) => Some(name),
        _ => None,
    }
}

fn last_dot(name: &Vec<char>) -> (r: Option<usize>)
    ensures
        match r {
            Some(d) => d as int == last_index_of(name@, '.') && d < name@.len(),
            None => last_index_of(name@, '.') < 0,
        },
{
    let mut i: usize = name.len();
    assert(name@.take(i as int) =~= name@);
    proof {
        lemma_last_index_bounds(name@, '.');
    }
    while i > 0
        invariant
            i <= name@.len(),
            last_index_of(name@, '.') == last_index_of(name@.take(i as int), '.'),
            -1 <= last_index_of(name@.take(i as int), '.') < i,
        decreases i,
    {
        let ghost t = name@.take(i as int);
        assert(t.drop_last() =~= name@.take(i - 1));
        proof {
            lemma_last_index_bounds(name@.take(i - 1), '.');
        }
        if name[i - 1] == '.' {
            return Some(i - 1);
        }
        i = i - 1;
    }
    assert(name@.take(0) =~= Seq::<char>::empty());
    None
}

/// The characters of `v` from `lo` up to `hi`.
pub fn copy_range(v: &Vec<char>, lo: usize, hi: usize) -> (r: Vec<char>)
    requires
        lo <= hi <= v@.len(),
    ensures
        r@ == v@.subrange(lo as int, hi as int),
{
    let mut r: Vec<char> = Vec::new();
    let mut i = lo;
    while i < hi
        invariant
            lo <= i <= hi <= v@.len(),
            r@ == v@.subrange(lo as int, i as int),
        decreases hi - i,
    {
        r.push(v[i]);
        i = i + 1;
        assert(r@ =~= v@.subrange(lo as int, i as int));
    }
    r
}

/// `file_stem()` of the path, or the empty string.
pub fn stem_chars(c: &Vec<Component>) -> (r: Vec<char>)
    ensures
        r@ == stem_or_empty(comps_view(c@)),
{
    match file_name_of(c) {
        None => Vec::new(),
        Some(name) => {
            let dot = last_dot(name);
            let d: usize = match dot {
                Some(d) => d,
                None => 0,
            };
            if d > 0 {
                let r = copy_range(name, 0, d);
                assert(name@.subrange(0, d as int) =~= name@.take(d as int));
                r
            } else {
                let r = copy_range(name, 0, name.len());
                assert(name@.subrange(0, name@.len() as int) =~= name@);
                r
            }
        },
    }
}

/// `extension()` of the path, or the empty string.
pub fn extension_chars(c: &Vec<Component>) -> (r: Vec<char>)
    ensures
        r@ == extension_or_empty(comps_view(c@)),
{
    match file_name_of(c) {
        None => Vec::new(),
        Some(name) => {
            let dot = last_dot(name);
            let d: usize = match dot {
                Some(d) => d,
                None => 0,
            };
            let n = name.len();
            assert(d < n || d == 0);
            if d > 0 {
                let r = copy_range(name, d + 1, n);
                assert(name@.subrange(d + 1, name@.len() as int) =~= name@.skip(d + 1));
                r
            } else {
                Vec::new()
            }
        },
    }
}

/// Whether the first `blen` components of `b` are a prefix of the first
/// `alen` components of `a`.
pub fn comps_starts_with_exec(a: &Vec<Component>, alen: usize, b: &Vec<Component>, blen: usize) -> (r: bool)
    requires
        alen <= a@.len(),
        blen <= b@.len(),
    ensures
        r == comps_starts_with(comps_view(a@).take(alen as int), comps_view(b@).take(blen as int)),
{
    if blen > alen {
        return false;
    }
    assert(comps_view(a@).take(alen as int).take(blen as int) =~= comps_view(a@).take(blen as int));
    comps_equal(a, blen, b, blen)
}

/// Whether the first `len` components of `c` end with the single normal
/// component `name`.
pub fn ends_with_name(c: &Vec<Component>, len: usize, name: &Vec<char>) -> (r: bool)
    requires
        len <= c@.len(),
    ensures
        r == comps_ends_with(comps_view(c@).take(len as int), seq![Comp::Normal(name@)]),
{
    let ghost cv = comps_view(c@).take(len as int);
    if len == 0 {
        return false;
    }
    assert(cv.skip(len - 1) =~= seq![c@[len - 1]@]);
    match &c[len - 1] {
        Component::Normal(n) => {
            let e = chars_equal(n, name);
            proof {
                if !e {
                    assert(seq![c@[len - 1]@][0] != seq![Comp::Normal(name@)][0]);
                }
            }
            e
        },
        _ => {
            assert(seq![c@[len - 1]@][0] != seq![Comp::Normal(name@)][0]);
            false
        },
    }
}

// ---------------------------------------------------------------------
// Sorting paths
// ---------------------------------------------------------------------

/// No path before index `j` of `v` equals the path at `j`.
pub open spec fn first_of_class(v: Seq<String>, j: int) -> bool {
    forall|k: int| 0 <= k < j ==> !path_eq(#[trigger] v[k]@, v[j]@)
}

/// The paths of `s` strictly increase.
pub open spec fn paths_sorted(s: Seq<String>) -> bool {
    forall|i: int, j: int| 0 <= i < j < s.len() ==> path_lt(#[trigger] s[i]@, #[trigger] s[j]@)
}

/// Some path of `out` equals `x`.
pub open spec fn has_path(out: Seq<String>, x: Seq<char>) -> bool {
    exists|i: int| 0 <= i < out.len() && path_eq(#[trigger] out[i]@, x)
}

/// `s` is, among the first `bound` entries of `v`, the first one of its
/// path.
pub open spec fn first_entry_of(v: Seq<String>, s: String, bound: int) -> bool {
    exists|j: int| 0 <= j < bound && #[trigger] v[j] == s && first_of_class(v, j)
}

/// `out` is what sorting `v` and removing adjacent equal paths gives:
/// strictly increasing, each entry the first of its path in `v`, and
/// every path of `v` present.
pub open spec fn sorted_dedup_of(out: Seq<String>, v: Seq<String>) -> bool {
    &&& paths_sorted(out)
    &&& forall|i: int| 0 <= i < out.len() ==> first_entry_of(v, #[trigger] out[i], v.len() as int)
    &&& forall|j: int| 0 <= j < v.len() ==> has_path(out, #[trigger] v[j]@)
}

proof fn lemma_insert_sorted(s: Seq<String>, p: int, x: String)
    requires
        0 <= p <= s.len(),
        paths_sorted(s),
        forall|q: int| 0 <= q < p ==> path_lt(#[trigger] s[q]@, x@),
        p < s.len() ==> path_lt(x@, s[p]@),
    ensures
        paths_sorted(s.insert(p, x)),
{
    let t = s.insert(p, x);
    assert forall|i: int, j: int| 0 <= i < j < t.len() implies path_lt(#[trigger] t[i]@, #[trigger] t[j]@) by {
        if j < p {
            assert(t[i] == s[i] && t[j] == s[j]);
        } else if j == p {
            assert(t[i] == s[i] && t[j] == x);
        } else if i < p {
            assert(t[i] == s[i] && t[j] == s[j - 1]);
        } else if i == p {
            assert(t[i] == x && t[j] == s[j - 1]);
            if j - 1 > p {
                assert(path_lt(s[p]@, s[j - 1]@));
                lemma_path_order(path_comps(x@), path_comps(s[p]@), path_comps(s[j - 1]@));
            }
        } else {
            assert(t[i] == s[i - 1] && t[j] == s[j - 1]);
        }
    }
}

proof fn lemma_not_present(s: Seq<String>, p: int, x: String)
    requires
        0 <= p <= s.len(),
        paths_sorted(s),
        forall|q: int| 0 <= q < p ==> path_lt(#[trigger] s[q]@, x@),
        p < s.len() ==> path_lt(x@, s[p]@),
    ensures
        forall|q: int| 0 <= q < s.len() ==> !path_eq(#[trigger] s[q]@, x@),
{
    let xc = path_comps(x@);
    assert forall|q: int| 0 <= q < s.len() implies !path_eq(#[trigger] s[q]@, x@) by {
        lemma_path_order(path_comps(s[q]@), xc, xc);
        if q > p {
            assert(path_lt(s[p]@, s[q]@));
            lemma_path_order(xc, path_comps(s[p]@), path_comps(s[q]@));
            lemma_path_order(path_comps(s[q]@), xc, xc);
        } else if q == p {
            lemma_path_order(xc, path_comps(s[q]@), xc);
        }
    }
}

/// Where the components `kc` belong among the sorted `keys`: every key
/// before `p` is smaller; `dup` tells whether the key at `p` is equal.
fn find_slot(keys: &Vec<Vec<Component>>, kc: &Vec<Component>) -> (r: (usize, bool))
    ensures
        r.0 <= keys@.len(),
        forall|q: int| 0 <= q < r.0 ==> comps_lt(comps_view(#[trigger] keys@[q]@), comps_view(kc@)),
        r.1 ==> r.0 < keys@.len() && comps_view(keys@[r.0 as int]@) == comps_view(kc@),
        !r.1 && r.0 < keys@.len() ==> comps_lt(comps_view(kc@), comps_view(keys@[r.0 as int]@)),
{
    let kl = kc.len();
    assert(comps_view(kc@).take(kl as int) =~= comps_view(kc@));
    let mut p: usize = 0;
    while p < keys.len() && comps_less(&keys[p], keys[p].len(), kc, kl)
        invariant
            p <= keys@.len(),
            kl == kc@.len(),
            comps_view(kc@).take(kl as int) == comps_view(kc@),
            forall|q: int| 0 <= q < p ==> comps_lt(comps_view(#[trigger] keys@[q]@), comps_view(kc@)),
        decreases keys@.len() - p,
    {
        assert(comps_view(keys@[p as int]@).take(keys@[p as int]@.len() as int) =~= comps_view(keys@[p as int]@));
        p = p + 1;
    }
    if p < keys.len() {
        assert(comps_view(keys@[p as int]@).take(keys@[p as int]@.len() as int) =~= comps_view(keys@[p as int]@));
        let later = comps_less(kc, kl, &keys[p], keys[p].len());
        if !later {
            proof {
                lemma_path_order(comps_view(kc@), comps_view(keys@[p as int]@), comps_view(kc@));
            }
            return (p, true);
        }
    }
    (p, false)
}

/// Sorts paths in `PathBuf` order and drops each path equal to the one
/// before it, as `sort()` followed by `dedup()` does.
#[verifier::rlimit(40)]
pub fn sort_dedup_paths(v: &Vec<String>) -> (out: Vec<String>)
    ensures
        sorted_dedup_of(out@, v@),
{
    let mut out: Vec<String> = Vec::new();
    let mut keys: Vec<Vec<Component>> = Vec::new();
    let mut j: usize = 0;
    while j < v.len()
        invariant
            j <= v@.len(),
            keys@.len() == out@.len(),
            forall|k: int| 0 <= k < out@.len() ==> comps_view(#[trigger] keys@[k]@) == path_comps(out@[k]@),
            paths_sorted(out@),
            forall|i: int| 0 <= i < out@.len() ==> first_entry_of(v@, #[trigger] out@[i], j as int),
            forall|jj: int| 0 <= jj < j ==> has_path(out@, #[trigger] v@[jj]@),
        decreases v@.len() - j,
    {
        let kc = components(v[j].as_str());
        let ghost x = v@[j as int];
        let (p, dup) = find_slot(&keys, &kc);
        assert forall|q: int| 0 <= q < p implies path_lt(#[trigger] out@[q]@, x@) by {
            assert(comps_view(keys@[q]@) == path_comps(out@[q]@));
        }
        if dup {
            assert(comps_view(keys@[p as int]@) == path_comps(out@[p as int]@));
            assert(path_eq(out@[p as int]@, v@[j as int]@));
            assert forall|jj: int| 0 <= jj < j + 1 implies has_path(out@, #[trigger] v@[jj]@) by {
                if jj == j {
                    assert(path_eq(out@[p as int]@, v@[jj]@));
                }
            }
            assert forall|i: int| 0 <= i < out@.len() implies first_entry_of(v@, #[trigger] out@[i], j + 1) by {
                assert(first_entry_of(v@, out@[i], j as int));
                let jj = choose|jj: int| 0 <= jj < j && #[trigger] v@[jj] == out@[i] && first_of_class(v@, jj);
            }
        } else {
            if p < out.len() {
                assert(comps_view(keys@[p as int]@) == path_comps(out@[p as int]@));
            }
            proof {
                lemma_not_present(out@, p as int, x);
                lemma_insert_sorted(out@, p as int, x);
            }
            assert(first_of_class(v@, j as int)) by {
                assert forall|k: int| 0 <= k < j implies !path_eq(#[trigger] v@[k]@, v@[j as int]@) by {
                    assert(has_path(out@, v@[k]@));
                    let i = choose|i: int| 0 <= i < out@.len() && path_eq(#[trigger] out@[i]@, v@[k]@);
                    assert(!path_eq(out@[i]@, x@));
                }
            }
            let ghost old_out = out@;
            let ghost old_keys = keys@;
            out.insert(p, v[j].clone());
            keys.insert(p, kc);
            assert(out@ == old_out.insert(p as int, x));
            assert forall|k: int| 0 <= k < out@.len() implies comps_view(#[trigger] keys@[k]@) == path_comps(out@[k]@) by {
                if k < p {
                    assert(keys@[k] == old_keys[k] && out@[k] == old_out[k]);
                } else if k > p {
                    assert(keys@[k] == old_keys[k - 1] && out@[k] == old_out[k - 1]);
                }
            }
            assert forall|i: int| 0 <= i < out@.len() implies first_entry_of(v@, #[trigger] out@[i], j + 1) by {
                if i < p {
                    assert(out@[i] == old_out[i]);
                    assert(first_entry_of(v@, old_out[i], j as int));
                    let jj = choose|jj: int| 0 <= jj < j && #[trigger] v@[jj] == old_out[i] && first_of_class(v@, jj);
                } else if i == p {
                    assert(out@[i] == v@[j as int]);
                } else {
                    assert(out@[i] == old_out[i - 1]);
                    assert(first_entry_of(v@, old_out[i - 1], j as int));
                    let jj = choose|jj: int| 0 <= jj < j && #[trigger] v@[jj] == old_out[i - 1] && first_of_class(v@, jj);
                }
            }
            assert forall|jj: int| 0 <= jj < j + 1 implies has_path(out@, #[trigger] v@[jj]@) by {
                if jj == j {
                    assert(out@[p as int] == v@[jj]);
                    assert(path_eq(out@[p as int]@, v@[jj]@));
                } else {
                    assert(has_path(old_out, v@[jj]@));
                    let i = choose|i: int| 0 <= i < old_out.len() && path_eq(#[trigger] old_out[i]@, v@[jj]@);
                    if i < p {
                        assert(out@[i] == old_out[i]);
                    } else {
                        assert(out@[i + 1] == old_out[i]);
                    }
                }
            }
        }
        j = j + 1;
    }
    out
}

// ---------------------------------------------------------------------
// Joining
// ---------------------------------------------------------------------

/// A Unix path is absolute when it starts at the root.
pub open spec fn is_absolute(s: Seq<char>) -> bool {
    s.len() > 0 && s[0] == '/'
}

/// `base.join(p)`: an absolute `p` replaces the base; otherwise `p` is
/// appended, with a separator unless the base is empty or already ends
/// with one.
pub open spec fn join_path(base: Seq<char>, p: Seq<char>) -> Seq<char> {
    if is_absolute(p) {
        p
    } else if base.len() > 0 && base.last() != '/' {
        base.push('/') + p
    } else {
        base + p
    }
}

/// Whether a path string is absolute.
pub fn is_absolute_path(s: &str) -> (r: bool)
    ensures
        r == is_absolute(s@),
{
    let cs = crate::text::chars_of(s);
    cs.len() > 0 && cs[0] == '/'
}

/// `base.join(p)` as a string.
pub fn join(base: &str, p: &str) -> (r: String)
    ensures
        r@ == join_path(base@, p@),
{
    let pc = crate::text::chars_of(p);
    if pc.len() > 0 && pc[0] == '/' {
        return crate::text::string_from_chars(&pc);
    }
    let mut out = crate::text::chars_of(base);
    if out.len() > 0 && out[out.len() - 1] != '/' {
        out.push('/');
    }
    crate::text::push_str(&mut out, p);
    crate::text::string_from_chars(&out)
}

/// `extension()` of the path.
pub open spec fn path_extension(c: Seq<Comp>) -> Option<Seq<char>> {
    match file_name(c) {
        Some(n) => name_extension(n),
        None => None,
    }
}

/// `extension()` of the path.
pub fn extension_opt(c: &Vec<Component>) -> (r: Option<Vec<char>>)
    ensures
        match path_extension(comps_view(c@)) {
            Some(e) => r is Some && r->0@ == e,
            None => r is None,
        },
{
    match file_name_of(c) {
        None => None,
        Some(name) => {
            let dot = last_dot(name);
            let d: usize = match dot {
                Some(d) => d,
                None => 0,
            };
            let n = name.len();
            assert(d < n || d == 0);
            if d > 0 {
                let r = copy_range(name, d + 1, n);
                assert(name@.subrange(d + 1, name@.len() as int) =~= name@.skip(d + 1));
                Some(r)
            } else {
                None
            }
        },
    }
}

} // verus!
