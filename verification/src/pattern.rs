//! Pattern-based replacement in text, through the `regex` crate.

use regex::Regex;
use vstd::prelude::*;

verus! {

/// Whether a text is a pattern that `regex` can compile.
pub uninterp spec fn pattern_compiles(pattern: Seq<char>) -> bool;

/// A text in which every match of a pattern has been replaced.
pub uninterp spec fn pattern_replaced(
    pattern: Seq<char>,
    text: Seq<char>,
    replacement: Seq<char>,
) -> Seq<char>;

/// `Regex::new`. Trusted: whether a pattern compiles is a function of the
/// pattern alone.
#[verifier::external_body]
pub(crate) fn compiles(pattern: &str) -> (ok: bool)
    ensures
        ok == pattern_compiles(pattern@),
{
    Regex::new(pattern).is_ok()
}

/// `Regex::new` followed by `Regex::replace_all`. Trusted: the result is a
/// function of the pattern, the text and the replacement alone.
#[verifier::external_body]
pub(crate) fn replace_all(pattern: &str, text: &str, replacement: &str) -> (out: String)
    requires
        pattern_compiles(pattern@),
    ensures
        out@ == pattern_replaced(pattern@, text@, replacement@),
{
    match Regex::new(pattern) {
        Ok(re) => re.replace_all(text, replacement).into_owned(),
        Err(_) => String::from(text),
    }
}

} // verus!
