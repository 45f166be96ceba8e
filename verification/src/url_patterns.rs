//! Regular-expression matching, done by the `regex` crate.

use vstd::prelude::*;

verus! {

/// Whether `regex::Regex::new` accepts `pattern` (with its default limits).
pub uninterp spec fn regex_compiles(pattern: Seq<char>) -> bool;

/// The text of capture group 1 in the leftmost-first match of `pattern` in
/// `haystack`, when the pattern compiles, there is a match and group 1
/// took part in it.
pub uninterp spec fn regex_group1(pattern: Seq<char>, haystack: Seq<char>) -> Option<Seq<char>>;

/// The characters of an optional string.
pub open spec fn opt_chars(s: Option<String>) -> Option<Seq<char>> {
    match s {
        Some(t) => Some(t@),
        None => None,
    }
}

/// Compiles `pattern` with `regex::Regex::new` and reports whether that
/// succeeded; the contract only names the outcome, as a function of the
/// pattern.
#[verifier::external_body]
pub(crate) fn regex_is_valid(pattern: &str) -> (b: bool)
    ensures
        b == regex_compiles(pattern@),
{
    regex::Regex::new(pattern).is_ok()
}

/// Compiles `pattern` with `regex::Regex::new`, runs `Regex::captures` on
/// `haystack` and returns the text of capture group 1 (`Captures::get(1)`).
/// The contract names the result as a function of the pattern and the
/// haystack; it does not describe the regular-expression semantics.
#[verifier::external_body]
pub(crate) fn regex_capture_group1(pattern: &str, haystack: &str) -> (r: Option<String>)
    ensures
        opt_chars(r) == regex_group1(pattern@, haystack@),
{
    let re = regex::Regex::new(pattern).ok()?;
    let caps = re.captures(haystack)?;
    caps.get(1).map(|m| m.as_str().to_string())
}

} // verus!
