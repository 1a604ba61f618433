//! Pattern-mode matching, backed by the `regex` crate.
//!
//! A pattern query is a regular expression tested against each line. What a
//! regular expression matches takes pages to state, so the outcomes are
//! given names: `pattern_valid`, `pattern_matches` and `pattern_highlighted`
//! stand for the results of compiling a pattern, testing a line against it,
//! and wrapping every match in marker strings. All three depend on their
//! arguments alone.

use vstd::prelude::*;

verus! {

/// The pattern compiles as a valid regular expression.
pub uninterp spec fn pattern_valid(p: Seq<char>) -> bool;

/// The pattern matches somewhere in the line.
pub uninterp spec fn pattern_matches(p: Seq<char>, line: Seq<char>) -> bool;

/// The line with every non-overlapping match of the pattern, left to right,
/// wrapped in `pre` and `post`.
pub uninterp spec fn pattern_highlighted(
    p: Seq<char>,
    line: Seq<char>,
    pre: Seq<char>,
    post: Seq<char>,
) -> Seq<char>;

/// Relies on `regex::Regex::new`: it returns `Ok` exactly on the patterns
/// that compile as valid regular expressions (under the default size limit),
/// and the outcome depends on the pattern alone.
#[verifier::external_body]
pub(crate) fn is_valid_pattern(p: &str) -> (r: bool)
    ensures
        r == pattern_valid(p@),
{
    regex::Regex::new(p).is_ok()
}

/// Relies on `regex::Regex::new` and `regex::Regex::is_match`: `is_match`
/// returns true if and only if the pattern matches somewhere in the line,
/// and the outcome depends on the pattern and the line alone.
#[verifier::external_body]
pub(crate) fn pattern_is_match(p: &str, line: &str) -> (r: bool)
    requires
        pattern_valid(p@),
    ensures
        r == pattern_matches(p@, line@),
{
    match regex::Regex::new(p) {
        Ok(re) => re.is_match(line),
        Err(_) => false,
    }
}

/// A match wrapped in the emphasis markers: `pre`, the matched text, `post`.
pub(crate) fn wrap_span(m: &str, pre: &str, post: &str) -> (r: String)
    ensures
        r@ == pre@ + m@ + post@,
{
    let mut r = String::new();
    r.append(pre);
    r.append(m);
    r.append(post);
    r
}

/// Relies on `regex::Regex::new` and `regex::Regex::replace_all`:
/// `replace_all` replaces every non-overlapping match, left to right, with
/// the replacement — here the matched text wrapped in the markers by
/// `wrap_span` — leaves the rest of the line unchanged, and returns the
/// line itself when nothing matches. The outcome depends on the pattern,
/// the line and the markers alone.
#[verifier::external_body]
pub(crate) fn highlight_pattern(p: &str, line: &str, pre: &str, post: &str) -> (r: String)
    requires
        pattern_valid(p@),
    ensures
        r@ == pattern_highlighted(p@, line@, pre@, post@),
        !pattern_matches(p@, line@) ==> r@ == line@,
{
    match regex::Regex::new(p) {
        Ok(re) => re.replace_all(line, |caps: &regex::Captures| wrap_span(&caps[0], pre, post))
            .into_owned(),
        Err(_) => line.to_owned(),
    }
}

} // verus!
