//! Regular-expression search, done by the `regex` crate.

use vstd::prelude::*;

verus! {

/// Whether `regex::Regex::new` accepts `pattern`.
pub uninterp spec fn regex_compiles(pattern: Seq<char>) -> bool;

/// What `is_match` answers for the regex built from `pattern` on `text`.
pub uninterp spec fn regex_is_match(pattern: Seq<char>, text: Seq<char>) -> bool;

/// Builds a regex from `pattern` with `regex::Regex::new` and, when that
/// succeeds, searches `text` with `regex::Regex::is_match`. The contract
/// claims only that the answer is `Some` exactly when the pattern
/// compiles, and that it is then the match result, both as functions of
/// the two strings.
#[verifier::external_body]
pub(crate) fn regex_search(pattern: &str, text: &str) -> (r: Option<bool>)
    ensures
        r is Some <==> regex_compiles(pattern@),
        r matches Some(b) ==> b == regex_is_match(pattern@, text@),
{
    match regex::Regex::new(pattern) {
        Ok(re) => Some(re.is_match(text)),
        Err(_) => None,
    }
}

} // verus!
