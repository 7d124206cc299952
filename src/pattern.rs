//! Regular expressions, through the `regex` crate.
use vstd::prelude::*;

verus! {

/// Whether `pattern` compiles under `regex::Regex::new` with its default limits.
/// The size limit counts the memory of the compiled automaton, so a pattern
/// close to it may compile on one target and not on another; within one
/// build the answer depends on the pattern alone.
pub uninterp spec fn regex_compiles(pattern: Seq<char>) -> bool;

/// Whether the compiled `pattern` matches somewhere in `text`.
pub uninterp spec fn regex_finds(pattern: Seq<char>, text: Seq<char>) -> bool;

/// The text of the first capture group in the leftmost match of `pattern` in
/// `text`, when that group takes part in the match.
pub uninterp spec fn regex_group(pattern: Seq<char>, text: Seq<char>) -> Option<Seq<char>>;

/// A match of `pattern` somewhere in `text`, the pattern compiling.
pub open spec fn pattern_hits(pattern: Seq<char>, text: Seq<char>) -> bool {
    regex_compiles(pattern) && regex_finds(pattern, text)
}

/// Relies on `regex::Regex::new`: `Ok` exactly for the patterns that compile.
#[verifier::external_body]
pub(crate) fn pattern_compiles(pattern: &str) -> (r: bool)
    ensures
        r == regex_compiles(pattern@),
{
    regex::Regex::new(pattern).is_ok()
}

/// Relies on `regex::Regex::new`, `Regex::captures` and `Captures::get`:
/// `None` when the pattern does not compile or does not match; otherwise the
/// first capture group's text, if that group took part in the match.
#[verifier::external_body]
pub(crate) fn pattern_search(pattern: &str, text: &str) -> (r: Option<Option<String>>)
    ensures
        r is Some <==> (regex_compiles(pattern@) && regex_finds(pattern@, text@)),
        r matches Some(Some(g)) ==> regex_group(pattern@, text@) == Some(g@),
        r matches Some(None) ==> regex_group(pattern@, text@) is None,
{
    let re = match regex::Regex::new(pattern) {
        Ok(re) => re,
        Err(_) => return None,
    };
    match re.captures(text) {
        None => None,
        Some(caps) => match caps.get(1) {
            None => Some(None),
            Some(m) => Some(Some(m.as_str().to_string())),
        },
    }
}

} // verus!
