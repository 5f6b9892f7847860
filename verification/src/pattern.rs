//! Regular expressions and character classes, as the `regex` crate and the
//! standard library decide them.

use regex::Regex;
use vstd::prelude::*;

verus! {

/// Whether the regular expression `pattern` matches somewhere in `text`, as
/// the `regex` crate decides it; `None` where the crate does not accept the
/// pattern.
pub uninterp spec fn regex_match(pattern: Seq<char>, text: Seq<char>) -> Option<bool>;

/// Whether the standard library counts the character as white space.
pub uninterp spec fn whitespace(c: char) -> bool;

/// Whether the regular expression `pattern` matches somewhere in `text`.
///
/// Trusted: the body compiles the pattern with `regex::Regex::new` and asks
/// `Regex::is_match`. The contract says no more than that the outcome
/// depends on the pattern and the text alone: `regex_match` is the name of
/// that outcome.
#[verifier::external_body]
pub(crate) fn is_match(pattern: &str, text: &str) -> (r: Option<bool>)
    ensures
        r == regex_match(pattern@, text@),
{
    match Regex::new(pattern) {
        Ok(regex) => Some(regex.is_match(text)),
        Err(_) => None,
    }
}

/// Whether the character is white space.
///
/// Trusted: the body calls `char::is_whitespace`, which tells whether the
/// character has the Unicode property `White_Space`. The contract says no
/// more than that the outcome depends on the character alone: `whitespace`
/// is the name of that outcome.
#[verifier::external_body]
pub(crate) fn is_whitespace(c: char) -> (r: bool)
    ensures
        r == whitespace(c),
{
    c.is_whitespace()
}

} // verus!
