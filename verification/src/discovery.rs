//! Finding a project's test files: which files qualify, the cache of what
//! was found per root, and narrowing the found files by patterns or by
//! related source files.

use vstd::prelude::*;
use std::collections::hash_map::DefaultHasher;
use std::hash::{Hash, Hasher};
use vstd::std_specs::hash::DefaultHasherAdditionalSpecFns;
use crate::config::JestConfig;
use crate::matching::{regex_compiles, regex_is_match, regex_search};
use crate::paths::{
    Comp, Component, comps_starts_with, comps_starts_with_exec, comps_view, components, comps_equal,
    is_absolute, join, join_path, is_absolute_path, parent_comps, parent_len, path_comps, path_eq,
    path_extension, extension_opt, sort_dedup_paths, sorted_dedup_of, stem_chars, stem_or_empty,
    chars_equal,
};
use crate::text::{
    chars_of, contains, contains_exec, occurs_at, copy_strings, replace_all, replace_all_exec, starts_with,
    string_from_chars, trim_end_all, trim_end_all_exec, str_equal,
};

verus! {

broadcast use vstd::seq_lib::group_seq_properties;

/// How long discovery results stay fresh, in milliseconds.
pub const DISCOVERY_CACHE_TTL_MS: u64 = 5000;

/// Cached discovery result
pub struct CachedDiscovery {
    pub root: String,
    pub test_files: Vec<String>,
    /// When the files were found, in milliseconds on the daemon's clock.
    pub timestamp_ms: u64,
    pub config_hash: u64,
}

/// What the cache holds for one root.
pub struct CacheEntry {
    pub test_files: Seq<String>,
    pub timestamp_ms: u64,
    pub config_hash: u64,
}

pub open spec fn entry_of(e: CachedDiscovery) -> CacheEntry {
    CacheEntry { test_files: e.test_files@, timestamp_ms: e.timestamp_ms, config_hash: e.config_hash }
}

/// Cache for test file discovery, one entry per root path.
pub struct DiscoveryCache {
    entries: Vec<CachedDiscovery>,
}

/// An entry at index `i` belongs to the root `k`.
pub open spec fn has_key_at(entries: Seq<CachedDiscovery>, k: Seq<Comp>, i: int) -> bool {
    0 <= i < entries.len() && path_comps(entries[i].root@) == k
}

/// The entry of `entries` that belongs to the root `k`.
pub open spec fn map_of(entries: Seq<CachedDiscovery>) -> Map<Seq<Comp>, CacheEntry> {
    Map::new(
        |k: Seq<Comp>| exists|i: int| has_key_at(entries, k, i),
        |k: Seq<Comp>| entry_of(entries[choose|i: int| has_key_at(entries, k, i)]),
    )
}

/// Discovery results are fresh while less than the time to live has
/// passed since they were found (no time passes when the clock reads
/// earlier).
pub open spec fn is_fresh(now_ms: u64, timestamp_ms: u64) -> bool {
    (if now_ms >= timestamp_ms {
        now_ms - timestamp_ms
    } else {
        0
    }) < DISCOVERY_CACHE_TTL_MS
}

impl View for DiscoveryCache {
    type V = Map<Seq<Comp>, CacheEntry>;

    closed spec fn view(&self) -> Map<Seq<Comp>, CacheEntry> {
        map_of(self.entries@)
    }
}

proof fn lemma_unique_entry(entries: Seq<CachedDiscovery>, k: Seq<Comp>, i: int)
    requires
        forall|a: int, b: int| 0 <= a < b < entries.len() ==> path_comps(#[trigger] entries[a].root@) != path_comps(#[trigger] entries[b].root@),
        has_key_at(entries, k, i),
    ensures
        map_of(entries).contains_key(k),
        map_of(entries)[k] == entry_of(entries[i]),
{
    let j = choose|j: int| has_key_at(entries, k, j);
    if j != i {
        if j < i {
            assert(path_comps(entries[j].root@) != path_comps(entries[i].root@));
        } else {
            assert(path_comps(entries[i].root@) != path_comps(entries[j].root@));
        }
    }
}

/// No two entries belong to the same root.
pub open spec fn roots_unique(entries: Seq<CachedDiscovery>) -> bool {
    forall|a: int, b: int| 0 <= a < b < entries.len() ==> path_comps(#[trigger] entries[a].root@) != path_comps(#[trigger] entries[b].root@)
}

impl DiscoveryCache {
    /// No two entries belong to the same root.
    #[verifier::type_invariant]
    spec fn wf(&self) -> bool {
        roots_unique(self.entries@)
    }

    pub fn new() -> (r: Self)
        ensures
            r@ == Map::<Seq<Comp>, CacheEntry>::empty(),
    {
        let r = Self { entries: Vec::new() };
        assert(r@ =~= Map::<Seq<Comp>, CacheEntry>::empty());
        r
    }

    fn find(&self, root: &str) -> (r: Option<usize>)
        requires
            self.wf(),
        ensures
            match r {
                Some(i) => has_key_at(self.entries@, path_comps(root@), i as int),
                None => !exists|i: int| has_key_at(self.entries@, path_comps(root@), i),
            },
    {
        let kc = components(root);
        let kl = kc.len();
        assert(comps_view(kc@).take(kl as int) =~= comps_view(kc@));
        let mut i: usize = 0;
        while i < self.entries.len()
            invariant
                i <= self.entries@.len(),
                kl == kc@.len(),
                comps_view(kc@).take(kl as int) == path_comps(root@),
                forall|j: int| 0 <= j < i ==> !has_key_at(self.entries@, path_comps(root@), j),
            decreases self.entries@.len() - i,
        {
            let ec = components(self.entries[i].root.as_str());
            assert(comps_view(ec@).take(ec@.len() as int) =~= comps_view(ec@));
            if comps_equal(&ec, ec.len(), &kc, kl) {
                return Some(i);
            }
            i = i + 1;
        }
        None
    }

    /// The test files cached for `root`, when they were found with the
    /// same configuration hash and are still fresh at `now_ms`.
    pub fn get(&self, root: &str, config_hash: u64, now_ms: u64) -> (r: Option<Vec<String>>)
        ensures
            match r {
                Some(files) => cache_lookup(self@, root@, config_hash, now_ms) == Some(files@),
                None => cache_lookup(self@, root@, config_hash, now_ms) is None,
            },
            r is Some <==> ({
                &&& self@.contains_key(path_comps(root@))
                &&& self@[path_comps(root@)].config_hash == config_hash
                &&& is_fresh(now_ms, self@[path_comps(root@)].timestamp_ms)
            }),
            r matches Some(files) ==> files@ == self@[path_comps(root@)].test_files,
    {
        proof {
            use_type_invariant(self);
        }
        match self.find(root) {
            Some(i) => {
                proof {
                    lemma_unique_entry(self.entries@, path_comps(root@), i as int);
                }
                let e = &self.entries[i];
                let age = if now_ms >= e.timestamp_ms {
                    now_ms - e.timestamp_ms
                } else {
                    0
                };
                if e.config_hash == config_hash && age < DISCOVERY_CACHE_TTL_MS {
                    Some(copy_strings(e.test_files.as_slice()))
                } else {
                    None
                }
            },
            None => None,
        }
    }

    /// Records the test files found for `root` at `now_ms`, replacing what
    /// was there for that root.
    #[verifier::spinoff_prover]
    pub fn set(&mut self, root: String, test_files: Vec<String>, config_hash: u64, now_ms: u64)
        ensures
            final(self)@ == old(self)@.insert(
                path_comps(root@),
                CacheEntry { test_files: test_files@, timestamp_ms: now_ms, config_hash },
            ),
    {
        proof {
            use_type_invariant(&*self);
        }
        let ghost k = path_comps(root@);
        let ghost new_entry = CacheEntry { test_files: test_files@, timestamp_ms: now_ms, config_hash };
        let ghost old_entries = self.entries@;
        assert(roots_unique(old_entries));
        let found = self.find(root.as_str());
        let item = CachedDiscovery { root, test_files, timestamp_ms: now_ms, config_hash };
        assert(entry_of(item) == new_entry);
        assert(path_comps(item.root@) == k);
        let mut entries: Vec<CachedDiscovery> = Vec::new();
        std::mem::swap(&mut entries, &mut self.entries);
        match found {
            Some(i) => {
                entries.set(i, item);
                assert(entries@ == old_entries.update(i as int, item));
                assert(roots_unique(entries@)) by {
                    assert forall|a: int, b: int| 0 <= a < b < entries@.len() implies path_comps(#[trigger] entries@[a].root@) != path_comps(#[trigger] entries@[b].root@) by {
                        if a == i {
                            assert(path_comps(old_entries[a].root@) != path_comps(old_entries[b].root@));
                        } else if b == i {
                            assert(path_comps(old_entries[a].root@) != path_comps(old_entries[b].root@));
                        } else {
                            assert(entries@[a] == old_entries[a] && entries@[b] == old_entries[b]);
                        }
                    }
                }
            },
            None => {
                entries.push(item);
                assert(entries@ == old_entries.push(item));
                assert(roots_unique(entries@)) by {
                    assert forall|a: int, b: int| 0 <= a < b < entries@.len() implies path_comps(#[trigger] entries@[a].root@) != path_comps(#[trigger] entries@[b].root@) by {
                        if b == old_entries.len() {
                            assert(!has_key_at(old_entries, k, a));
                        } else {
                            assert(entries@[a] == old_entries[a] && entries@[b] == old_entries[b]);
                        }
                    }
                }
            },
        }
        self.entries = entries;
        let ghost ne = self.entries@;
        assert(roots_unique(ne));
        assert(self@ =~= old(self)@.insert(k, new_entry)) by {
            assert forall|kk: Seq<Comp>| #[trigger] self@.contains_key(kk) == old(self)@.insert(k, new_entry).contains_key(kk) by {
                if kk != k {
                    if exists|j: int| has_key_at(ne, kk, j) {
                        let j = choose|j: int| has_key_at(ne, kk, j);
                        assert(ne[j] == old_entries[j]);
                        assert(has_key_at(old_entries, kk, j));
                    }
                    if exists|j: int| has_key_at(old_entries, kk, j) {
                        let j = choose|j: int| has_key_at(old_entries, kk, j);
                        assert(ne[j] == old_entries[j]);
                        assert(has_key_at(ne, kk, j));
                    }
                } else {
                    match found {
                        Some(i) => assert(has_key_at(ne, k, i as int)),
                        None => assert(has_key_at(ne, k, old_entries.len() as int)),
                    }
                }
            }
            assert forall|kk: Seq<Comp>| #[trigger] self@.contains_key(kk) implies self@[kk] == old(self)@.insert(k, new_entry)[kk] by {
                let j = choose|j: int| has_key_at(ne, kk, j);
                lemma_unique_entry(ne, kk, j);
                if kk != k {
                    assert(ne[j] == old_entries[j]);
                    lemma_unique_entry(old_entries, kk, j);
                }
            }
        }
    }

    /// Forgets what was found for `root`.
    pub fn invalidate(&mut self, root: &str)
        ensures
            final(self)@ == old(self)@.remove(path_comps(root@)),
    {
        proof {
            use_type_invariant(&*self);
        }
        let ghost k = path_comps(root@);
        let ghost old_entries = self.entries@;
        match self.find(root) {
            Some(i) => {
                let mut entries: Vec<CachedDiscovery> = Vec::new();
                std::mem::swap(&mut entries, &mut self.entries);
                entries.remove(i);
                let ghost ne = entries@;
                assert(ne == old_entries.remove(i as int));
                assert(roots_unique(ne)) by {
                    assert forall|a: int, b: int| 0 <= a < b < ne.len() implies path_comps(#[trigger] ne[a].root@) != path_comps(#[trigger] ne[b].root@) by {
                        let oa = if a < i { a } else { a + 1 };
                        let ob = if b < i { b } else { b + 1 };
                        assert(ne[a] == old_entries[oa] && ne[b] == old_entries[ob]);
                    }
                }
                self.entries = entries;
                assert(self@ =~= old(self)@.remove(k)) by {
                    assert forall|kk: Seq<Comp>| #[trigger] self@.contains_key(kk) == old(self)@.remove(k).contains_key(kk) by {
                        if exists|j: int| has_key_at(ne, kk, j) {
                            let j = choose|j: int| has_key_at(ne, kk, j);
                            let oj = if j < i { j } else { j + 1 };
                            assert(ne[j] == old_entries[oj]);
                            assert(has_key_at(old_entries, kk, oj));
                            if kk == k {
                                assert(path_comps(old_entries[oj].root@) == path_comps(old_entries[i as int].root@));
                                if oj < i {
                                    assert(path_comps(old_entries[oj].root@) != path_comps(old_entries[i as int].root@));
                                } else {
                                    assert(path_comps(old_entries[i as int].root@) != path_comps(old_entries[oj].root@));
                                }
                            }
                        }
                        if kk != k && exists|j: int| has_key_at(old_entries, kk, j) {
                            let j = choose|j: int| has_key_at(old_entries, kk, j);
                            assert(j != i);
                            let nj = if j < i { j } else { j - 1 };
                            assert(ne[nj] == old_entries[j]);
                            assert(has_key_at(ne, kk, nj));
                        }
                    }
                    assert forall|kk: Seq<Comp>| #[trigger] self@.contains_key(kk) implies self@[kk] == old(self)@.remove(k)[kk] by {
                        let j = choose|j: int| has_key_at(ne, kk, j);
                        lemma_unique_entry(ne, kk, j);
                        let oj = if j < i { j } else { j + 1 };
                        assert(ne[j] == old_entries[oj]);
                        lemma_unique_entry(old_entries, kk, oj);
                    }
                }
            },
            None => {
                assert(self@ =~= old(self)@.remove(k));
            },
        }
    }
}

/// What a lookup in the discovery cache `m` gives for `root`: the files
/// found for that root, when found with the same configuration hash and
/// still fresh at `now_ms`.
pub open spec fn cache_lookup(m: Map<Seq<Comp>, CacheEntry>, root: Seq<char>, config_hash: u64, now_ms: u64) -> Option<Seq<String>> {
    let k = path_comps(root);
    if m.contains_key(k) && m[k].config_hash == config_hash && is_fresh(now_ms, m[k].timestamp_ms) {
        Some(m[k].test_files)
    } else {
        None
    }
}

/// Reading back what was cached: after the files of a root are recorded
/// at `found_ms`, a lookup of the same root (the same path, however
/// written) with the same configuration hash gives those files while they
/// are fresh, and nothing once they are stale or for another hash.
pub proof fn law_cache_read_after_write(
    m: Map<Seq<Comp>, CacheEntry>,
    root: Seq<char>,
    same_root: Seq<char>,
    test_files: Seq<String>,
    config_hash: u64,
    other_hash: u64,
    found_ms: u64,
    now_ms: u64,
)
    requires
        path_eq(root, same_root),
        other_hash != config_hash,
    ensures
        ({
            let after = m.insert(
                path_comps(root),
                CacheEntry { test_files, timestamp_ms: found_ms, config_hash },
            );
            &&& is_fresh(now_ms, found_ms) ==> cache_lookup(after, same_root, config_hash, now_ms) == Some(test_files)
            &&& !is_fresh(now_ms, found_ms) ==> cache_lookup(after, same_root, config_hash, now_ms) is None
            &&& cache_lookup(after, same_root, other_hash, now_ms) is None
        }),
{
}

/// Forgetting a root: after its entry is removed, a lookup of that root
/// gives nothing, and lookups of other roots give what they gave before.
pub proof fn law_cache_invalidate(
    m: Map<Seq<Comp>, CacheEntry>,
    root: Seq<char>,
    other: Seq<char>,
    config_hash: u64,
    now_ms: u64,
)
    ensures
        cache_lookup(m.remove(path_comps(root)), root, config_hash, now_ms) is None,
        !path_eq(root, other) ==> cache_lookup(m.remove(path_comps(root)), other, config_hash, now_ms)
            == cache_lookup(m, other, config_hash, now_ms),
{
}

/// Forgets what was found for `root` in the discovery cache.
pub fn invalidate_discovery_cache(cache: &mut DiscoveryCache, root: &str)
    ensures
        final(cache)@ == old(cache)@.remove(path_comps(root@)),
{
    cache.invalidate(root);
}

// ---------------------------------------------------------------------
// Which files qualify
// ---------------------------------------------------------------------

/// A directory entry is hidden when its name starts with a dot.
pub fn is_hidden(name: &str) -> (r: bool)
    ensures
        r == (name@.len() > 0 && name@[0] == '.'),
{
    let cs = chars_of(name);
    cs.len() > 0 && cs[0] == '.'
}

/// A directory entry is a `node_modules` directory by its name.
pub fn is_node_modules(name: &str) -> (r: bool)
    ensures
        r == (name@ == "node_modules"@),
{
    str_equal(name, "node_modules")
}

/// The path's extension is one of `extensions`.
pub open spec fn has_valid_ext(path: Seq<char>, extensions: Seq<String>) -> bool {
    match path_extension(path_comps(path)) {
        Some(e) => exists|i: int| 0 <= i < extensions.len() && (#[trigger] extensions[i])@ == e,
        None => false,
    }
}

/// Whether the path has one of the given extensions.
pub fn has_valid_extension(path: &str, extensions: &[String]) -> (r: bool)
    ensures
        r == has_valid_ext(path@, extensions@),
{
    let c = components(path);
    match extension_opt(&c) {
        None => false,
        Some(e) => {
            let mut i: usize = 0;
            while i < extensions.len()
                invariant
                    i <= extensions@.len(),
                    path_extension(path_comps(path@)) == Some(e@),
                    forall|k: int| 0 <= k < i ==> (#[trigger] extensions@[k])@ != e@,
                decreases extensions@.len() - i,
            {
                let x = chars_of(extensions[i].as_str());
                if chars_equal(&x, &e) {
                    assert(extensions@[i as int]@ == e@);
                    return true;
                }
                i = i + 1;
            }
            false
        },
    }
}

/// The regex that the simple discovery glob turns a pattern into: dots
/// escaped, `**` any text, `*` any text without `/`, `?` any character,
/// anchored at the end.
pub open spec fn simple_glob_regex(p: Seq<char>) -> Seq<char> {
    let a = replace_all(p, "."@, "\\."@);
    let b = replace_all(a, "**"@, "{{GLOBSTAR}}"@);
    let c = replace_all(b, "*"@, "[^/]*"@);
    let d = replace_all(c, "{{GLOBSTAR}}"@, ".*"@);
    replace_all(d, "?"@, "."@).push('$')
}

/// The simple discovery glob matches when its regex compiles and matches.
pub open spec fn simple_glob_matches(pattern: Seq<char>, path: Seq<char>) -> bool {
    regex_compiles(simple_glob_regex(pattern)) && regex_is_match(simple_glob_regex(pattern), path)
}

fn replace_str(s: &Vec<char>, pat: &str, rep: &str) -> (r: Vec<char>)
    requires
        pat@.len() > 0,
    ensures
        r@ == replace_all(s@, pat@, rep@),
{
    let p = chars_of(pat);
    let q = chars_of(rep);
    replace_all_exec(s, &p, &q)
}

/// Whether `path` matches `pattern` under the simple discovery glob.
pub fn glob_match(pattern: &str, path: &str) -> (r: bool)
    ensures
        r == simple_glob_matches(pattern@, path@),
{
    proof {
        reveal_strlit(".");
        reveal_strlit("**");
        reveal_strlit("*");
        reveal_strlit("{{GLOBSTAR}}");
        reveal_strlit("?");
    }
    let p = chars_of(pattern);
    let a = replace_str(&p, ".", "\\.");
    let b = replace_str(&a, "**", "{{GLOBSTAR}}");
    let c = replace_str(&b, "*", "[^/]*");
    let d = replace_str(&c, "{{GLOBSTAR}}", ".*");
    let mut e = replace_str(&d, "?", ".");
    e.push('$');
    let re = string_from_chars(&e);
    match regex_search(re.as_str(), path) {
        Some(b) => b,
        None => false,
    }
}

/// A test path matches one of the patterns: the pattern occurs in it, or
/// matches it as a simple glob.
pub open spec fn matches_some_pattern(path: Seq<char>, patterns: Seq<String>) -> bool {
    exists|i: int| 0 <= i < patterns.len() && (contains(path, (#[trigger] patterns[i])@) || simple_glob_matches(patterns[i]@, path))
}

/// Narrowing by patterns keeps every test whose path holds one of the
/// patterns as a piece of its text: when some pattern occurs in a test's
/// path, the tests that match the patterns hold that test.
pub proof fn law_pattern_in_path_keeps_test(patterns: Seq<String>, all_tests: Seq<String>, r: Seq<String>, i: int, j: int, at: int)
    requires
        r == all_tests.filter(|t: String| matches_some_pattern(t@, patterns)),
        0 <= i < patterns.len(),
        0 <= j < all_tests.len(),
        0 <= at && at + patterns[i]@.len() <= all_tests[j]@.len(),
        all_tests[j]@.subrange(at, at + patterns[i]@.len()) == patterns[i]@,
    ensures
        r.contains(all_tests[j]),
{
    let pred = |t: String| matches_some_pattern(t@, patterns);
    assert(occurs_at(all_tests[j]@, patterns[i]@, at));
    assert(contains(all_tests[j]@, patterns[i]@));
    assert(pred(all_tests[j]));
    all_tests.lemma_filter_contains(pred, j);
}

/// `s` without trailing `.test` and then `.spec` suffixes.
pub open spec fn base_name(s: Seq<char>) -> Seq<char> {
    trim_end_all(trim_end_all(s, ".test"@), ".spec"@)
}

/// The components of the parent, or none when there is no parent.
pub open spec fn parent_or_empty(c: Seq<Comp>) -> Seq<Comp> {
    match parent_comps(c) {
        Some(p) => p,
        None => seq![],
    }
}

/// A test is related to a source file when the source's stem is the
/// test's base name, or the source lies under the test's directory, or
/// that directory lies under the source's directory.
pub open spec fn related_to_source(test: Seq<char>, source: Seq<char>) -> bool {
    let tc = path_comps(test);
    let sc = path_comps(source);
    ||| stem_or_empty(sc) == base_name(stem_or_empty(tc))
    ||| parent_comps(tc) is Some && (comps_starts_with(sc, parent_comps(tc)->0) || comps_starts_with(
        parent_comps(tc)->0,
        parent_or_empty(sc),
    ))
}

/// The test is related to one of the source files.
pub open spec fn related_to_some(test: Seq<char>, sources: Seq<String>) -> bool {
    exists|i: int| 0 <= i < sources.len() && related_to_source(test, (#[trigger] sources[i])@)
}

/// What `<str as Hash>::hash` leaves in a `DefaultHasher` whose writes so
/// far are `state`, after hashing `text`.
pub uninterp spec fn str_hash_step(state: Seq<Seq<u8>>, text: Seq<char>) -> Seq<Seq<u8>>;

/// `<str as Hash>::hash` into a `DefaultHasher`: the writes it leaves are
/// a function of the writes before and of the text. Which bytes it writes
/// is named, not stated.
#[verifier::external_body]
fn hash_text(h: &mut DefaultHasher, s: &str)
    ensures
        final(h)@ == str_hash_step(old(h)@, s@),
{
    s.hash(h)
}

/// The hasher's writes after hashing each of `texts` in order, starting
/// from `state`.
pub open spec fn hashed_all(state: Seq<Seq<u8>>, texts: Seq<String>) -> Seq<Seq<u8>>
    decreases texts.len(),
{
    if texts.len() == 0 {
        state
    } else {
        str_hash_step(hashed_all(state, texts.drop_last()), texts.last()@)
    }
}

/// The hash of the configuration fields that affect discovery: a fresh
/// `DefaultHasher` fed the roots, the extensions, the `testMatch` globs and
/// the `testRegex` patterns, in that order, then finished.
pub open spec fn config_hash_of(c: JestConfig) -> u64 {
    DefaultHasher::spec_finish(
        hashed_all(
            hashed_all(hashed_all(hashed_all(seq![], c.roots@), c.module_file_extensions@), c.test_match@),
            c.test_regex@,
        ),
    )
}

fn hash_each(h: &mut DefaultHasher, texts: &Vec<String>)
    ensures
        final(h)@ == hashed_all(old(h)@, texts@),
{
    let ghost start = h@;
    let mut i: usize = 0;
    while i < texts.len()
        invariant
            i <= texts@.len(),
            h@ == hashed_all(start, texts@.take(i as int)),
        decreases texts@.len() - i,
    {
        proof {
            assert(texts@.take(i + 1).drop_last() =~= texts@.take(i as int));
        }
        hash_text(h, texts[i].as_str());
        i = i + 1;
    }
    proof {
        assert(texts@.take(i as int) =~= texts@);
    }
}

/// A hash of the configuration fields that affect discovery: the roots,
/// the extensions, the `testMatch` globs and the `testRegex` patterns.
fn compute_config_hash(config: &JestConfig) -> (r: u64)
    ensures
        r == config_hash_of(*config),
{
    let mut hasher = DefaultHasher::new();
    hash_each(&mut hasher, &config.roots);
    hash_each(&mut hasher, &config.module_file_extensions);
    hash_each(&mut hasher, &config.test_match);
    hash_each(&mut hasher, &config.test_regex);
    hasher.finish()
}

/// Discover test files in a project based on Jest configuration
pub struct TestDiscovery {
    pub config: JestConfig,
    pub config_hash: u64,
}

impl TestDiscovery {
    /// A discovery for `config`, with the hash of its discovery fields.
    pub fn new(config: JestConfig) -> (r: Self)
        ensures
            r.config == config,
    {
        let config_hash = compute_config_hash(&config);
        Self { config, config_hash }
    }

    /// The directories to search: each root joined onto the root
    /// directory (an absolute root stands as it is).
    pub fn root_paths(&self) -> (r: Vec<String>)
        ensures
            r@.len() == self.config.roots@.len(),
            forall|i: int| 0 <= i < r@.len() ==> (#[trigger] r@[i])@ == join_path(self.config.root_dir@, self.config.roots@[i]@),
    {
        let mut r: Vec<String> = Vec::new();
        let mut i: usize = 0;
        while i < self.config.roots.len()
            invariant
                i <= self.config.roots@.len(),
                r@.len() == i,
                forall|k: int| 0 <= k < i ==> (#[trigger] r@[k])@ == join_path(self.config.root_dir@, self.config.roots@[k]@),
            decreases self.config.roots@.len() - i,
        {
            r.push(join(self.config.root_dir.as_str(), self.config.roots[i].as_str()));
            i = i + 1;
        }
        r
    }

    /// Of the files found under the roots, those with a valid extension
    /// that the configuration takes for tests, sorted in path order with
    /// equal paths once.
    pub fn select_test_files(&self, candidates: &[String]) -> (r: Vec<String>)
        ensures
            sorted_dedup_of(
                r@,
                candidates@.filter(|c: String| has_valid_ext(c@, self.config.module_file_extensions@) && self.config.accepts_test(c@)),
            ),
    {
        let ghost pred = |c: String| has_valid_ext(c@, self.config.module_file_extensions@) && self.config.accepts_test(c@);
        let mut picked: Vec<String> = Vec::new();
        let mut i: usize = 0;
        while i < candidates.len()
            invariant
                i <= candidates@.len(),
                pred == (|c: String| has_valid_ext(c@, self.config.module_file_extensions@) && self.config.accepts_test(c@)),
                picked@ == candidates@.take(i as int).filter(pred),
            decreases candidates@.len() - i,
        {
            let c = &candidates[i];
            proof {
                assert(candidates@.take(i + 1) =~= candidates@.take(i as int).push(*c));
                candidates@.take(i as int).lemma_filter_push(*c, pred);
            }
            if has_valid_extension(c.as_str(), self.config.module_file_extensions.as_slice())
                && self.config.is_test_file(c.as_str()) {
                picked.push(c.clone());
            }
            i = i + 1;
        }
        assert(candidates@.take(candidates@.len() as int) =~= candidates@);
        sort_dedup_paths(&picked)
    }

    /// The found tests that match one of the patterns; all of them when
    /// there are no patterns.
    pub fn find_tests_matching(&self, patterns: &[String], all_tests: Vec<String>) -> (r: Vec<String>)
        ensures
            patterns@.len() == 0 ==> r@ == all_tests@,
            patterns@.len() > 0 ==> r@ == all_tests@.filter(|t: String| matches_some_pattern(t@, patterns@)),
    {
        if patterns.len() == 0 {
            return all_tests;
        }
        let ghost pred = |t: String| matches_some_pattern(t@, patterns@);
        let mut picked: Vec<String> = Vec::new();
        let mut i: usize = 0;
        while i < all_tests.len()
            invariant
                i <= all_tests@.len(),
                pred == (|t: String| matches_some_pattern(t@, patterns@)),
                picked@ == all_tests@.take(i as int).filter(pred),
            decreases all_tests@.len() - i,
        {
            let t = &all_tests[i];
            let tc = chars_of(t.as_str());
            let mut hit = false;
            let mut k: usize = 0;
            while k < patterns.len() && !hit
                invariant
                    k <= patterns@.len(),
                    tc@ == t@,
                    hit == exists|m: int| 0 <= m < k && (contains(t@, (#[trigger] patterns@[m])@) || simple_glob_matches(patterns@[m]@, t@)),
                decreases patterns@.len() - k,
            {
                let pc = chars_of(patterns[k].as_str());
                if contains_exec(&tc, &pc) || glob_match(patterns[k].as_str(), t.as_str()) {
                    hit = true;
                }
                k = k + 1;
            }
            proof {
                assert(all_tests@.take(i + 1) =~= all_tests@.take(i as int).push(*t));
                all_tests@.take(i as int).lemma_filter_push(*t, pred);
            }
            if hit {
                picked.push(t.clone());
            }
            i = i + 1;
        }
        assert(all_tests@.take(all_tests@.len() as int) =~= all_tests@);
        picked
    }

    /// The found tests related to one of the source files, by name or by
    /// directory.
    pub fn find_related_tests(&self, source_files: &[String], all_tests: Vec<String>) -> (r: Vec<String>)
        ensures
            r@ == all_tests@.filter(|t: String| related_to_some(t@, source_files@)),
    {
        let ghost pred = |t: String| related_to_some(t@, source_files@);
        let mut picked: Vec<String> = Vec::new();
        let mut i: usize = 0;
        while i < all_tests.len()
            invariant
                i <= all_tests@.len(),
                pred == (|t: String| related_to_some(t@, source_files@)),
                picked@ == all_tests@.take(i as int).filter(pred),
            decreases all_tests@.len() - i,
        {
            let t = &all_tests[i];
            let hit = related_to_some_exec(t.as_str(), source_files);
            proof {
                assert(all_tests@.take(i + 1) =~= all_tests@.take(i as int).push(*t));
                all_tests@.take(i as int).lemma_filter_push(*t, pred);
            }
            if hit {
                picked.push(t.clone());
            }
            i = i + 1;
        }
        assert(all_tests@.take(all_tests@.len() as int) =~= all_tests@);
        picked
    }
}

fn related_to_source_exec(
    tc: &Vec<Component>,
    tp: Option<usize>,
    base: &Vec<char>,
    source: &str,
    Ghost(test): Ghost<Seq<char>>,
) -> (r: bool)
    requires
        comps_view(tc@) == path_comps(test),
        base@ == base_name(stem_or_empty(path_comps(test))),
        match parent_comps(path_comps(test)) {
            Some(p) => tp is Some && tp->0 + 1 == tc@.len() && p == comps_view(tc@).take(tp->0 as int),
            None => tp is None,
        },
    ensures
        r == related_to_source(test, source@),
{
    let sc = components(source);
    let sstem = stem_chars(&sc);
    let sl = sc.len();
    assert(comps_view(sc@).take(sl as int) =~= comps_view(sc@));
    if chars_equal(&sstem, base) {
        return true;
    }
    assert(stem_or_empty(path_comps(source@)) != base_name(stem_or_empty(path_comps(test))));
    match tp {
        Some(p) => {
            assert(parent_comps(path_comps(test)) is Some);
            assert(p <= tc@.len());
            assert(parent_comps(path_comps(test))->0 == comps_view(tc@).take(p as int));
            if comps_starts_with_exec(&sc, sl, tc, p) {
                assert(comps_starts_with(path_comps(source@), parent_comps(path_comps(test))->0));
                return true;
            }
            let spl: usize = match parent_len(&sc, sl) {
                Some(q) => q,
                None => 0,
            };
            assert(spl == 0 ==> comps_view(sc@).take(spl as int) =~= Seq::<Comp>::empty());
            assert(parent_or_empty(path_comps(source@)) == comps_view(sc@).take(spl as int));
            comps_starts_with_exec(tc, p, &sc, spl)
        },
        None => false,
    }
}

fn related_to_some_exec(test: &str, sources: &[String]) -> (r: bool)
    ensures
        r == related_to_some(test@, sources@),
{
    let tc = components(test);
    let stem = stem_chars(&tc);
    let test_suffix = chars_of(".test");
    let spec_suffix = chars_of(".spec");
    proof {
        reveal_strlit(".test");
        reveal_strlit(".spec");
    }
    let a = trim_end_all_exec(&stem, &test_suffix);
    let base = trim_end_all_exec(&a, &spec_suffix);
    let tl = tc.len();
    assert(comps_view(tc@).take(tl as int) =~= comps_view(tc@));
    let tp = parent_len(&tc, tl);
    assert(comps_view(tc@).take(tl as int) == comps_view(tc@));
    let mut k: usize = 0;
    while k < sources.len()
        invariant
            k <= sources@.len(),
            comps_view(tc@) == path_comps(test@),
            base@ == base_name(stem_or_empty(path_comps(test@))),
            match parent_comps(path_comps(test@)) {
                Some(p) => tp is Some && tp->0 + 1 == tc@.len() && p == comps_view(tc@).take(tp->0 as int),
                None => tp is None,
            },
            forall|m: int| 0 <= m < k ==> !related_to_source(test@, (#[trigger] sources@[m])@),
        decreases sources@.len() - k,
    {
        if related_to_source_exec(&tc, tp, &base, sources[k].as_str(), Ghost(test@)) {
            return true;
        }
        k = k + 1;
    }
    false
}

} // verus!
