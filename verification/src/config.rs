//! The part of a project's Jest configuration that the daemon reads, and
//! the decisions it takes from it: which files are tests, and how many
//! workers to use.

use vstd::prelude::*;
use crate::matching::{regex_compiles, regex_is_match, regex_search};
use crate::rjest_util::{glob_match, glob_matches};
use crate::text::{chars_of, ends_with, ends_with_exec, push_str, string_from_chars};
use crate::paths::{join, join_path};
use crate::worker::{parse_usize, parse_usize_spec};

verus! {

/// The default test timeout, in milliseconds.
pub fn default_timeout() -> (r: u32)
    ensures
        r == 5000,
{
    5000
}

/// The `maxWorkers` setting as the configuration gives it.
#[derive(Debug, Clone)]
pub enum MaxWorkers {
    /// A number; `None` when it is not a non-negative integer that fits in
    /// 64 bits.
    Number(Option<u64>),
    /// A string, such as `"4"` or `"50%"`.
    Text(String),
    /// Anything else, or absent.
    Other,
}

/// One entry of the `projects` setting.
#[derive(Debug, Clone)]
pub enum ProjectEntry {
    /// A path to the project, possibly starting with `<rootDir>`.
    Path(String),
    /// An inline configuration, with its `rootDir` when that is a string.
    Inline(Option<String>),
    /// Anything else.
    Other,
}

/// The regex patterns of a configuration that compile.
#[derive(Debug, Clone)]
pub struct JestConfigPatterns {
    pub test_regex_compiled: Vec<String>,
    pub test_path_ignore_compiled: Vec<String>,
    pub coverage_path_ignore_compiled: Vec<String>,
    pub transform_ignore_compiled: Vec<String>,
}

/// Normalized Jest configuration
#[derive(Debug, Clone)]
pub struct JestConfig {
    pub root_dir: String,
    pub roots: Vec<String>,
    pub test_match: Vec<String>,
    pub test_regex: Vec<String>,
    pub test_path_ignore_patterns: Vec<String>,
    pub module_file_extensions: Vec<String>,
    pub transform_ignore_patterns: Vec<String>,
    pub setup_files: Vec<String>,
    pub setup_files_after_env: Vec<String>,
    pub test_environment: String,
    pub collect_coverage: bool,
    pub coverage_directory: String,
    pub coverage_path_ignore_patterns: Vec<String>,
    pub coverage_reporters: Vec<String>,
    pub test_timeout: u32,
    pub verbose: bool,
    pub bail: u32,
    pub max_workers: MaxWorkers,
    pub projects: Option<Vec<ProjectEntry>>,
    pub display_name: Option<String>,
    pub clear_mocks: bool,
    pub reset_mocks: bool,
    pub restore_mocks: bool,
    /// Cached compiled patterns (computed lazily)
    pub patterns: Option<JestConfigPatterns>,
}

/// `pats` holds, in order, the patterns of `src` that compile.
pub open spec fn compiled_of(pats: Seq<String>, src: Seq<String>) -> bool {
    pats.map_values(|p: String| p@) == src.filter(|p: String| regex_compiles(p@)).map_values(
        |p: String| p@,
    )
}

/// The regex `pat` compiles and finds a match in `text`.
pub open spec fn regex_hit(pat: Seq<char>, text: Seq<char>) -> bool {
    regex_compiles(pat) && regex_is_match(pat, text)
}

/// A path is a test when no ignore pattern matches it and a `testMatch`
/// glob or a `testRegex` pattern does.
pub open spec fn is_test_path(p: JestConfigPatterns, test_match: Seq<String>, path: Seq<char>) -> bool {
    &&& !exists|i: int| 0 <= i < p.test_path_ignore_compiled@.len() && regex_hit(#[trigger] p.test_path_ignore_compiled@[i]@, path)
    &&& {
        ||| exists|i: int| 0 <= i < test_match.len() && glob_matches(#[trigger] test_match[i]@, path)
        ||| exists|i: int| 0 <= i < p.test_regex_compiled@.len() && regex_hit(#[trigger] p.test_regex_compiled@[i]@, path)
    }
}

/// Whether `regex::Regex::new` accepts a pattern.
fn compiles(p: &str) -> (r: bool)
    ensures
        r == regex_compiles(p@),
{
    regex_search(p, "").is_some()
}

/// Whether a regex pattern matches `text`.
fn regex_hits(p: &str, text: &str) -> (r: bool)
    ensures
        r == regex_hit(p@, text@),
{
    match regex_search(p, text) {
        Some(b) => b,
        None => false,
    }
}

/// The patterns of `src` that compile, in order.
pub fn compiled_patterns(src: &Vec<String>) -> (out: Vec<String>)
    ensures
        compiled_of(out@, src@),
{
    let ghost pred = |p: String| regex_compiles(p@);
    let ghost f = |p: String| p@;
    let mut out: Vec<String> = Vec::new();
    let mut i: usize = 0;
    while i < src.len()
        invariant
            i <= src@.len(),
            pred == (|p: String| regex_compiles(p@)),
            f == (|p: String| p@),
            out@.map_values(f) == src@.take(i as int).filter(pred).map_values(f),
        decreases src@.len() - i,
    {
        let p = &src[i];
        proof {
            assert(src@.take(i + 1) =~= src@.take(i as int).push(*p));
            src@.take(i as int).lemma_filter_push(*p, pred);
        }
        if compiles(p.as_str()) {
            let ghost before = out@;
            out.push(p.clone());
            assert(out@.map_values(f) =~= before.map_values(f).push(f(*p)));
            assert(src@.take(i + 1).filter(pred).map_values(f) =~= src@.take(i as int).filter(pred).map_values(f).push(f(*p)));
        }
        i = i + 1;
    }
    assert(src@.take(src@.len() as int) =~= src@);
    out
}

impl JestConfig {
    /// Whether the configuration takes `path` for a test file.
    pub open spec fn accepts_test(&self, path: Seq<char>) -> bool {
        match self.patterns {
            Some(p) => is_test_path(p, self.test_match@, path),
            None => false,
        }
    }

    /// Compiles the regex patterns once: afterwards `patterns` holds, for
    /// each list, those that compile. Patterns already compiled stay.
    pub fn compile_patterns(&mut self)
        ensures
            old(self).patterns is Some ==> final(self).patterns == old(self).patterns,
            final(self).patterns is Some,
            old(self).patterns is None ==> {
                let p = final(self).patterns->0;
                &&& compiled_of(p.test_regex_compiled@, old(self).test_regex@)
                &&& compiled_of(p.test_path_ignore_compiled@, old(self).test_path_ignore_patterns@)
                &&& compiled_of(p.coverage_path_ignore_compiled@, old(self).coverage_path_ignore_patterns@)
                &&& compiled_of(p.transform_ignore_compiled@, old(self).transform_ignore_patterns@)
            },
            final(self).root_dir == old(self).root_dir,
            final(self).roots == old(self).roots,
            final(self).test_match == old(self).test_match,
            final(self).test_regex == old(self).test_regex,
            final(self).test_path_ignore_patterns == old(self).test_path_ignore_patterns,
            final(self).module_file_extensions == old(self).module_file_extensions,
    {
        if self.patterns.is_some() {
            return;
        }
        let test_regex_compiled = compiled_patterns(&self.test_regex);
        let test_path_ignore_compiled = compiled_patterns(&self.test_path_ignore_patterns);
        let coverage_path_ignore_compiled = compiled_patterns(&self.coverage_path_ignore_patterns);
        let transform_ignore_compiled = compiled_patterns(&self.transform_ignore_patterns);
        self.patterns = Some(JestConfigPatterns {
            test_regex_compiled,
            test_path_ignore_compiled,
            coverage_path_ignore_compiled,
            transform_ignore_compiled,
        });
    }

    /// The effective number of workers: a number setting as given (1 when
    /// it is not a non-negative integer), a percentage as `percent_workers`
    /// (what the percentage of `cpus` comes to), another string as the
    /// number it spells (1 when it spells none), and otherwise the number
    /// of CPUs, at least 1.
    pub fn max_workers_count(&self, cpus: usize, percent_workers: usize) -> (r: usize)
        ensures
            r == match self.max_workers {
                MaxWorkers::Number(Some(n)) => n as usize,
                MaxWorkers::Number(None) => 1,
                MaxWorkers::Text(s) => if ends_with(s@, seq!['%']) {
                    percent_workers
                } else {
                    match parse_usize_spec(s@) {
                        Some(v) => v,
                        None => 1,
                    }
                },
                MaxWorkers::Other => if cpus > 1 { cpus } else { 1 },
            },
    {
        match &self.max_workers {
            MaxWorkers::Number(Some(n)) => *n as usize,
            MaxWorkers::Number(None) => 1,
            MaxWorkers::Text(s) => {
                let cs = chars_of(s.as_str());
                let mut pct: Vec<char> = Vec::new();
                pct.push('%');
                assert(pct@ =~= seq!['%']);
                if ends_with_exec(&cs, &pct) {
                    percent_workers
                } else {
                    match parse_usize(s.as_str()) {
                        Some(v) => v,
                        None => 1,
                    }
                }
            },
            MaxWorkers::Other => if cpus > 1 {
                cpus
            } else {
                1
            },
        }
    }

    /// Whether a path is a test file: false before the patterns are
    /// compiled; otherwise no ignore pattern may match, and a `testMatch`
    /// glob or a `testRegex` pattern must.
    pub fn is_test_file(&self, path: &str) -> (r: bool)
        ensures
            r == self.accepts_test(path@),
    {
        let patterns = match &self.patterns {
            Some(p) => p,
            None => return false,
        };
        let mut i: usize = 0;
        while i < patterns.test_path_ignore_compiled.len()
            invariant
                self.patterns == Some(*patterns),
                i <= patterns.test_path_ignore_compiled@.len(),
                forall|k: int| 0 <= k < i ==> !regex_hit(#[trigger] patterns.test_path_ignore_compiled@[k]@, path@),
            decreases patterns.test_path_ignore_compiled@.len() - i,
        {
            if regex_hits(patterns.test_path_ignore_compiled[i].as_str(), path) {
                assert(regex_hit(patterns.test_path_ignore_compiled@[i as int]@, path@));
                return false;
            }
            i = i + 1;
        }
        let mut j: usize = 0;
        while j < self.test_match.len()
            invariant
                self.patterns == Some(*patterns),
                forall|k: int| 0 <= k < patterns.test_path_ignore_compiled@.len() ==> !regex_hit(#[trigger] patterns.test_path_ignore_compiled@[k]@, path@),
                j <= self.test_match@.len(),
                forall|k: int| 0 <= k < j ==> !glob_matches(#[trigger] self.test_match@[k]@, path@),
            decreases self.test_match@.len() - j,
        {
            if glob_match(self.test_match[j].as_str(), path) {
                assert(glob_matches(self.test_match@[j as int]@, path@));
                return true;
            }
            j = j + 1;
        }
        let mut m: usize = 0;
        while m < patterns.test_regex_compiled.len()
            invariant
                self.patterns == Some(*patterns),
                forall|k: int| 0 <= k < patterns.test_path_ignore_compiled@.len() ==> !regex_hit(#[trigger] patterns.test_path_ignore_compiled@[k]@, path@),
                forall|k: int| 0 <= k < self.test_match@.len() ==> !glob_matches(#[trigger] self.test_match@[k]@, path@),
                m <= patterns.test_regex_compiled@.len(),
                forall|k: int| 0 <= k < m ==> !regex_hit(#[trigger] patterns.test_regex_compiled@[k]@, path@),
            decreases patterns.test_regex_compiled@.len() - m,
        {
            if regex_hits(patterns.test_regex_compiled[m].as_str(), path) {
                assert(regex_hit(patterns.test_regex_compiled@[m as int]@, path@));
                return true;
            }
            m = m + 1;
        }
        false
    }
}


/// Where the configuration loader script may lie, relative to the
/// directory of the daemon's executable, in the order they are tried.
pub fn config_loader_candidates(exe_dir: &str) -> (r: Vec<String>)
    ensures
        r@.len() == 3,
        r@[0]@ == join_path(exe_dir@, "../lib/rjest-runtime/src/load-config.js"@),
        r@[1]@ == join_path(exe_dir@, "../../crates/rjest-runtime/src/load-config.js"@),
        r@[2]@ == join_path(exe_dir@, "load-config.js"@),
{
    let mut r: Vec<String> = Vec::new();
    r.push(join(exe_dir, "../lib/rjest-runtime/src/load-config.js"));
    r.push(join(exe_dir, "../../crates/rjest-runtime/src/load-config.js"));
    r.push(join(exe_dir, "load-config.js"));
    r
}

/// Where the configuration loader lies in a development checkout,
/// relative to the daemon crate's manifest directory.
pub fn dev_config_loader(manifest_dir: &str) -> (r: String)
    ensures
        r@ == join_path(manifest_dir@, "../rjest-runtime/src/load-config.js"@),
{
    join(manifest_dir, "../rjest-runtime/src/load-config.js")
}

/// The message when the loader exits with a failure, `stderr` being what
/// it printed there.
pub fn loader_failure_message(stderr: &str) -> (r: String)
    ensures
        r@ == "Config loader failed: "@ + stderr@,
{
    let mut l: Vec<char> = Vec::new();
    push_str(&mut l, "Config loader failed: ");
    push_str(&mut l, stderr);
    string_from_chars(&l)
}

/// The message when the loader reports an error in the configuration.
pub fn config_error_message(message: &str) -> (r: String)
    ensures
        r@ == "Failed to load config: "@ + message@,
{
    let mut l: Vec<char> = Vec::new();
    push_str(&mut l, "Failed to load config: ");
    push_str(&mut l, message);
    string_from_chars(&l)
}

} // verus!
