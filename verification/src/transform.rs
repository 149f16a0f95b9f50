//! Compiling test files: which files need compiling and how they are
//! parsed, the content hash that keys a compiled file, and the in-memory
//! layer of the cache of compiled files.

use vstd::prelude::*;
use crate::metrics::{Metrics, bump, same_except};
use crate::paths::{extension_or_empty, path_comps, components, extension_chars, chars_equal};
use crate::text::{chars_of, str_equal, string_from_chars};
use lru::LruCache;
use std::collections::hash_map::RandomState;
use crate::swc::{swc_lower, swc_output, swc_parse, swc_parse_error};

verus! {

/// How many compiled files the in-memory layer keeps.
pub const LRU_CACHE_SIZE: usize = 1000;

/// A compiled file, as the cache keeps it.
#[derive(Debug, Clone)]
pub struct TransformResult {
    /// Compiled JavaScript code
    pub code: String,
    /// Source map (JSON string)
    pub source_map: Option<String>,
    /// Original file path
    pub original_path: String,
    /// Content hash of source
    pub source_hash: String,
}

impl TransformResult {
    /// A copy of this compiled file.
    pub fn duplicate(&self) -> (r: TransformResult)
        ensures
            r == *self,
    {
        TransformResult {
            code: self.code.clone(),
            source_map: match &self.source_map {
                Some(m) => Some(m.clone()),
                None => None,
            },
            original_path: self.original_path.clone(),
            source_hash: self.source_hash.clone(),
        }
    }
}

/// `lru::LruCache`, a map with a capacity that evicts the least recently
/// used entry when a new key arrives at capacity.
#[verifier::external_type_specification]
#[verifier::external_body]
#[verifier::reject_recursive_types(K)]
#[verifier::reject_recursive_types(V)]
#[verifier::reject_recursive_types(S)]
pub struct ExLruCache<K, V, S>(LruCache<K, V, S>);

/// An LRU cache of compiled files, keyed by path.
pub type CompiledLru = LruCache<String, TransformResult, RandomState>;

/// The entries of an LRU cache of compiled files, by key.
pub uninterp spec fn lru_entries(c: CompiledLru) -> Map<Seq<char>, TransformResult>;

/// No entry at all.
pub open spec fn no_entries() -> Map<Seq<char>, TransformResult> {
    Map::empty()
}

/// The capacity an LRU cache of compiled files was made with.
pub uninterp spec fn lru_capacity(c: CompiledLru) -> nat;

/// The keys of an LRU cache of compiled files, from the most recently used
/// to the least recently used.
pub uninterp spec fn lru_order(c: CompiledLru) -> Seq<Seq<char>>;

/// The order lists each key of the entries once, and nothing else.
pub open spec fn order_matches(entries: Map<Seq<char>, TransformResult>, order: Seq<Seq<char>>) -> bool {
    order.no_duplicates() && order.to_set() == entries.dom()
}

/// `order` after `key` is used: `key` first, then the others as they were.
pub open spec fn used_first(order: Seq<Seq<char>>, key: Seq<char>) -> Seq<Seq<char>> {
    seq![key] + order.filter(|k: Seq<char>| k != key)
}

/// What `put` of `value` under `key` does to the entries `e0` and the
/// order `o0` of a cache with capacity `cap`: when the key is new and the
/// cache full, the least recently used entry, the last in the order, is
/// evicted; the key then holds the value and comes first in the order.
pub open spec fn put_effect(
    e0: Map<Seq<char>, TransformResult>,
    o0: Seq<Seq<char>>,
    cap: nat,
    key: Seq<char>,
    value: TransformResult,
    e1: Map<Seq<char>, TransformResult>,
    o1: Seq<Seq<char>>,
) -> bool {
    if !e0.dom().contains(key) && e0.dom().len() >= cap {
        &&& e1 == e0.remove(o0.last()).insert(key, value)
        &&& o1 == seq![key] + o0.drop_last()
    } else {
        &&& e1 == e0.insert(key, value)
        &&& o1 == used_first(o0, key)
    }
}

/// `LruCache::with_hasher` with capacity `cap` and std's hasher: empty, holding at most `cap`
/// entries.
#[verifier::external_body]
fn lru_new(cap: usize) -> (r: CompiledLru)
    requires
        cap > 0,
    ensures
        lru_entries(r) == no_entries(),
        lru_order(r) == Seq::<Seq<char>>::empty(),
        lru_capacity(r) == cap,
{
    LruCache::with_hasher(std::num::NonZeroUsize::new(cap).unwrap(), RandomState::new())
}

/// `LruCache::get`, the value cloned: the entry of `key`, if any. It
/// leaves the entries as they are and makes a found key the most recently
/// used.
#[verifier::external_body]
fn lru_get(c: &mut CompiledLru, key: &str) -> (r: Option<TransformResult>)
    ensures
        lru_entries(*final(c)) == lru_entries(*old(c)),
        lru_capacity(*final(c)) == lru_capacity(*old(c)),
        lru_order(*final(c)) == if lru_entries(*old(c)).dom().contains(key@) {
            used_first(lru_order(*old(c)), key@)
        } else {
            lru_order(*old(c))
        },
        order_matches(lru_entries(*final(c)), lru_order(*final(c))),
        r == if lru_entries(*old(c)).dom().contains(key@) {
            Some(lru_entries(*old(c))[key@])
        } else {
            None
        },
{
    c.get(key).cloned()
}

/// `LruCache::put`: the key now holds the value and is the most recently
/// used. When the key was new and the cache full, the least recently used
/// entry is evicted; otherwise nothing else changes.
#[verifier::external_body]
fn lru_put(c: &mut CompiledLru, key: String, value: TransformResult)
    ensures
        lru_capacity(*final(c)) == lru_capacity(*old(c)),
        put_effect(
            lru_entries(*old(c)),
            lru_order(*old(c)),
            lru_capacity(*old(c)),
            key@,
            value,
            lru_entries(*final(c)),
            lru_order(*final(c)),
        ),
        order_matches(lru_entries(*final(c)), lru_order(*final(c))),
{
    c.put(key, value);
}

/// BLAKE3 of a text's UTF-8 bytes, in lowercase hexadecimal.
pub uninterp spec fn blake3_hex(text: Seq<char>) -> Seq<char>;

/// `blake3::hash` of the text's bytes, `to_hex`: 64 lowercase hexadecimal
/// digits, the hash itself named rather than stated.
#[verifier::external_body]
fn blake3_hex_of(text: &str) -> (r: String)
    ensures
        r@ == blake3_hex(text@),
        r@.len() == 64,
        forall|i: int| 0 <= i < 64 ==> is_lower_hex(#[trigger] r@[i]),
{
    blake3::hash(text.as_bytes()).to_hex().to_string()
}

/// A lowercase hexadecimal digit.
pub open spec fn is_lower_hex(c: char) -> bool {
    ('0' <= c && c <= '9') || ('a' <= c && c <= 'f')
}

/// The content hash that keys a source file's compiled form.
pub fn source_hash(source: &str) -> (r: String)
    ensures
        r@ == blake3_hex(source@),
        r@.len() == 64,
{
    blake3_hex_of(source)
}

/// The extensions of files that are compiled; others run as they are.
pub open spec fn needs_compiling(ext: Seq<char>) -> bool {
    ext == "ts"@ || ext == "tsx"@ || ext == "jsx"@ || ext == "mts"@ || ext == "cts"@
}

/// The extensions of TypeScript files, whose types are stripped.
pub open spec fn is_typescript(ext: Seq<char>) -> bool {
    ext == "ts"@ || ext == "tsx"@ || ext == "mts"@ || ext == "cts"@
}

/// How a file is parsed.
#[derive(Debug, Clone, Copy, PartialEq, Eq, Structural)]
pub enum SyntaxChoice {
    /// TypeScript, with decorators.
    TypeScript,
    /// TypeScript with JSX, with decorators.
    Tsx,
    /// JavaScript with JSX, with decorators (also before `export`).
    Jsx,
    /// Plain JavaScript.
    Es,
}

/// The syntax a file is parsed with, by its extension.
pub open spec fn syntax_of(ext: Seq<char>) -> SyntaxChoice {
    if ext == "ts"@ || ext == "mts"@ || ext == "cts"@ {
        SyntaxChoice::TypeScript
    } else if ext == "tsx"@ {
        SyntaxChoice::Tsx
    } else if ext == "jsx"@ {
        SyntaxChoice::Jsx
    } else {
        SyntaxChoice::Es
    }
}

/// The extension of a path, empty when it has none.
pub fn file_extension(path: &str) -> (r: String)
    ensures
        r@ == extension_or_empty(path_comps(path@)),
{
    let c = components(path);
    string_from_chars(&extension_chars(&c))
}

/// Whether a file with this extension is compiled.
pub fn needs_compiling_exec(ext: &str) -> (r: bool)
    ensures
        r == needs_compiling(ext@),
{
    str_equal(ext, "ts") || str_equal(ext, "tsx") || str_equal(ext, "jsx") || str_equal(ext, "mts") || str_equal(
        ext,
        "cts",
    )
}

/// Whether a file with this extension has its types stripped.
pub fn is_typescript_exec(ext: &str) -> (r: bool)
    ensures
        r == is_typescript(ext@),
{
    str_equal(ext, "ts") || str_equal(ext, "tsx") || str_equal(ext, "mts") || str_equal(ext, "cts")
}

/// The syntax a file with this extension is parsed with.
pub fn syntax_for(ext: &str) -> (r: SyntaxChoice)
    ensures
        r == syntax_of(ext@),
{
    if str_equal(ext, "ts") || str_equal(ext, "mts") || str_equal(ext, "cts") {
        SyntaxChoice::TypeScript
    } else if str_equal(ext, "tsx") {
        SyntaxChoice::Tsx
    } else if str_equal(ext, "jsx") {
        SyntaxChoice::Jsx
    } else {
        SyntaxChoice::Es
    }
}

/// Compiles a TypeScript or JSX file with SWC: parsed by its extension,
/// then lowered into CommonJS with types stripped for TypeScript. It fails
/// exactly when the source does not parse, with SWC's error; otherwise it
/// gives SWC's output.
pub fn transform_typescript(path: &str, source: &str, extension: &str) -> (r: Result<String, String>)
    ensures
        match (r, swc_parse_error(path@, source@, syntax_of(extension@))) {
            (Ok(c), None) => c@ == swc_output(path@, source@, syntax_of(extension@), is_typescript(extension@)),
            (Err(a), Some(b)) => a@ == b,
            _ => false,
        },
{
    let syntax = syntax_for(extension);
    let strip_types = is_typescript_exec(extension);
    match swc_parse(path, source, syntax) {
        Ok(parsed) => Ok(swc_lower(parsed, strip_types)),
        Err(e) => Err(e),
    }
}

/// The compiled form of a file: its source as it is when its extension
/// needs no compiling, else SWC's output, failing exactly when the source
/// does not parse, with SWC's error.
pub fn transform_with_native_swc(path: &str, source: &str, source_hash: &str) -> (r: Result<TransformResult, String>)
    ensures
        ({
            let ext = extension_or_empty(path_comps(path@));
            if needs_compiling(ext) {
                match (r, swc_parse_error(path@, source@, syntax_of(ext))) {
                    (Ok(x), None) => {
                        &&& x.code@ == swc_output(path@, source@, syntax_of(ext), is_typescript(ext))
                        &&& x.source_map is None
                        &&& x.original_path@ == path@
                        &&& x.source_hash@ == source_hash@
                    },
                    (Err(a), Some(b)) => a@ == b,
                    _ => false,
                }
            } else {
                r matches Ok(x) && x.code@ == source@ && x.source_map is None && x.original_path@ == path@
                    && x.source_hash@ == source_hash@
            }
        }),
{
    let extension = file_extension(path);
    if !needs_compiling_exec(extension.as_str()) {
        return Ok(unchanged_result(path, source, source_hash));
    }
    match transform_typescript(path, source, extension.as_str()) {
        Ok(code) => Ok(TransformResult {
            code,
            source_map: None,
            original_path: string_from_chars(&chars_of(path)),
            source_hash: string_from_chars(&chars_of(source_hash)),
        }),
        Err(e) => Err(e),
    }
}

/// The compiled form of a file that needs no compiling: its source as it
/// is, with no source map.
pub fn unchanged_result(path: &str, source: &str, source_hash: &str) -> (r: TransformResult)
    ensures
        r.code@ == source@,
        r.source_map is None,
        r.original_path@ == path@,
        r.source_hash@ == source_hash@,
{
    TransformResult {
        code: string_from_chars(&chars_of(source)),
        source_map: None,
        original_path: string_from_chars(&chars_of(path)),
        source_hash: string_from_chars(&chars_of(source_hash)),
    }
}

/// What reading the on-disk layer of the cache gave.
pub enum DiskLookup {
    /// An entry, read back as a compiled file, or `None` when it could not
    /// be read back.
    Found(Option<TransformResult>),
    /// No entry for the key.
    Absent,
    /// The read itself failed.
    Failed,
}

/// What looking a file up in memory gives: the entry of its path, when it
/// was compiled from a source with the same content hash.
pub open spec fn memory_lookup(entries: Map<Seq<char>, TransformResult>, path: Seq<char>, source_hash: Seq<char>) -> Option<TransformResult> {
    if entries.dom().contains(path) && entries[path].source_hash@ == source_hash {
        Some(entries[path])
    } else {
        None
    }
}

/// Reading back what was cached: once a compiled file is kept under its
/// path, looking that path up with the file's content hash gives it back,
/// and with another hash gives nothing.
pub proof fn law_memory_read_after_write(
    entries: Map<Seq<char>, TransformResult>,
    path: Seq<char>,
    result: TransformResult,
    other_hash: Seq<char>,
)
    requires
        entries.dom().contains(path),
        entries[path] == result,
        other_hash != result.source_hash@,
    ensures
        memory_lookup(entries, path, result.source_hash@) == Some(result),
        memory_lookup(entries, path, other_hash) is None,
{
}

/// What a lookup gives once the disk layer has answered: the entry read
/// back, when it was compiled from a source with the requested content
/// hash; nothing otherwise.
pub open spec fn disk_outcome(lookup: DiskLookup, source_hash: Seq<char>) -> Option<TransformResult> {
    match lookup {
        DiskLookup::Found(Some(x)) => if x.source_hash@ == source_hash {
            Some(x)
        } else {
            None
        },
        _ => None,
    }
}

/// Reading back what the disk layer holds: when the disk gives back the
/// compiled file that was stored, a lookup with the file's content hash
/// gives it back and one with another hash gives nothing; and whatever the
/// disk answers, a file given back was compiled from a source with the
/// requested hash.
pub proof fn law_disk_read_after_write(result: TransformResult, other_hash: Seq<char>, lookup: DiskLookup, hash: Seq<char>)
    requires
        other_hash != result.source_hash@,
    ensures
        disk_outcome(DiskLookup::Found(Some(result)), result.source_hash@) == Some(result),
        disk_outcome(DiskLookup::Found(Some(result)), other_hash) is None,
        disk_outcome(lookup, hash) matches Some(x) ==> x.source_hash@ == hash,
{
}

/// The in-memory layer of the cache of compiled files, keyed by path.
pub struct TransformCache {
    lru: CompiledLru,
}

impl TransformCache {
    /// The entries, by path.
    pub closed spec fn entries(&self) -> Map<Seq<char>, TransformResult> {
        lru_entries(self.lru)
    }

    /// The number of entries it keeps at most.
    pub closed spec fn capacity(&self) -> nat {
        lru_capacity(self.lru)
    }

    /// The paths of the entries, from the most recently used to the least.
    pub closed spec fn order(&self) -> Seq<Seq<char>> {
        lru_order(self.lru)
    }

    /// An empty layer that keeps `LRU_CACHE_SIZE` entries at most.
    pub fn open() -> (r: Self)
        ensures
            r.entries() == Map::<Seq<char>, TransformResult>::empty(),
            r.order() == Seq::<Seq<char>>::empty(),
            r.capacity() == LRU_CACHE_SIZE,
    {
        TransformCache { lru: lru_new(LRU_CACHE_SIZE) }
    }

    /// Looks a file up in memory: its compiled form when there is an entry
    /// for its path with the same content hash, counted as a hit.
    /// Otherwise `None`, and nothing is counted: the disk is asked next.
    pub fn get(&mut self, path: &str, source_hash: &str, metrics: &mut Metrics) -> (r: Option<TransformResult>)
        ensures
            final(self).entries() == old(self).entries(),
            final(self).capacity() == old(self).capacity(),
            final(self).order() == if old(self).entries().dom().contains(path@) {
                used_first(old(self).order(), path@)
            } else {
                old(self).order()
            },
            r == memory_lookup(old(self).entries(), path@, source_hash@),
            r is Some ==> final(metrics).cache_hits == bump(old(metrics).cache_hits, 1) && same_except(
                *final(metrics),
                *old(metrics),
                set![4],
            ),
            r is None ==> *final(metrics) == *old(metrics),
    {
        match lru_get(&mut self.lru, path) {
            Some(x) => {
                if str_equal(x.source_hash.as_str(), source_hash) {
                    crate::metrics::record_cache_hit(metrics);
                    Some(x)
                } else {
                    None
                }
            },
            None => None,
        }
    }

    /// Decides on what the disk gave for a file that memory did not have:
    /// an entry with the same content hash is a hit, and joins memory; any
    /// other entry, one that cannot be read back, or none, is a miss; a
    /// failed read is neither.
    pub fn after_disk(&mut self, path: &str, source_hash: &str, lookup: DiskLookup, metrics: &mut Metrics) -> (r: Option<TransformResult>)
        ensures
            final(self).capacity() == old(self).capacity(),
            r == disk_outcome(lookup, source_hash@),
            match lookup {
                DiskLookup::Found(Some(x)) => if x.source_hash@ == source_hash@ {
                    &&& r == Some(x)
                    &&& final(metrics).cache_hits == bump(old(metrics).cache_hits, 1)
                    &&& same_except(*final(metrics), *old(metrics), set![4])
                    &&& final(self).entries()[path@] == x
                    &&& put_effect(
                        old(self).entries(),
                        old(self).order(),
                        old(self).capacity(),
                        path@,
                        x,
                        final(self).entries(),
                        final(self).order(),
                    )
                } else {
                    &&& r is None
                    &&& final(metrics).cache_misses == bump(old(metrics).cache_misses, 1)
                    &&& same_except(*final(metrics), *old(metrics), set![5])
                    &&& final(self).entries() == old(self).entries()
                    &&& final(self).order() == old(self).order()
                },
                DiskLookup::Found(None) | DiskLookup::Absent => {
                    &&& r is None
                    &&& final(metrics).cache_misses == bump(old(metrics).cache_misses, 1)
                    &&& same_except(*final(metrics), *old(metrics), set![5])
                    &&& final(self).entries() == old(self).entries()
                    &&& final(self).order() == old(self).order()
                },
                DiskLookup::Failed => {
                    &&& r is None
                    &&& *final(metrics) == *old(metrics)
                    &&& final(self).entries() == old(self).entries()
                    &&& final(self).order() == old(self).order()
                },
            },
    {
        match lookup {
            DiskLookup::Found(Some(x)) => {
                if str_equal(x.source_hash.as_str(), source_hash) {
                    crate::metrics::record_cache_hit(metrics);
                    lru_put(&mut self.lru, string_from_chars(&chars_of(path)), x.duplicate());
                    Some(x)
                } else {
                    crate::metrics::record_cache_miss(metrics);
                    None
                }
            },
            DiskLookup::Found(None) | DiskLookup::Absent => {
                crate::metrics::record_cache_miss(metrics);
                None
            },
            DiskLookup::Failed => None,
        }
    }

    /// Keeps a compiled file in memory under its path; the disk layer is
    /// written by the caller.
    pub fn set(&mut self, path: &str, result: TransformResult)
        ensures
            final(self).capacity() == old(self).capacity(),
            final(self).entries().dom().contains(path@),
            final(self).entries()[path@] == result,
            forall|k: Seq<char>| #[trigger] final(self).entries().dom().contains(k) && k != path@
                ==> old(self).entries().dom().contains(k) && final(self).entries()[k] == old(self).entries()[k],
            put_effect(
                old(self).entries(),
                old(self).order(),
                old(self).capacity(),
                path@,
                result,
                final(self).entries(),
                final(self).order(),
            ),
    {
        lru_put(&mut self.lru, string_from_chars(&chars_of(path)), result);
    }
}

} // verus!
