//! Regular-expression captures.
//!
//! Matching is done by the `regex` crate. What a pattern captures in a text
//! is not restated here: it is given a name, `first_group`, and the rest of
//! the library states its results over that name.
use vstd::prelude::*;

verus! {

/// What capture group 1 of `pattern` holds after the leftmost match of
/// `pattern` in `text`, as the `regex` crate computes it: `None` where the
/// pattern is not a valid expression, where it matches nowhere in the text,
/// or where the group took no part in the match.
pub uninterp spec fn first_group(pattern: Seq<char>, text: Seq<char>) -> Option<Seq<char>>;

/// The characters of an optional string.
pub open spec fn text_of(s: Option<String>) -> Option<Seq<char>> {
    match s {
        Some(t) => Some(t@),
        None => None,
    }
}

/// Compiles `pattern` with `regex::Regex::new`, searches `text` with
/// `Regex::captures` and hands out the text of group 1 (`Captures::get(1)`,
/// `Match::as_str`). The contract claims only that the outcome is a function
/// of the two texts, the one named `first_group`.
#[verifier::external_body]
pub(crate) fn capture(pattern: &str, text: &str) -> (r: Option<String>)
    ensures
        text_of(r) == first_group(pattern@, text@),
{
    let expression = regex::Regex::new(pattern).ok()?;
    let captures = expression.captures(text)?;
    let group = captures.get(1)?;
    Some(group.as_str().to_owned())
}

} // verus!
