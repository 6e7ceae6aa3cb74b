//! The calls that leave this crate. Nothing in this file is proved: each
//! contract says what the called function is taken to do.

use crate::text::{dropped, joined};
use vstd::prelude::*;

verus! {

/// `String::push` appends one character at the end of the string.
pub assume_specification[ String::push ](s: &mut String, c: char)
    ensures
        final(s)@ == old(s)@.push(c),
;

/// The lowercase form of `text` as `str::to_lowercase` computes it, by the
/// Unicode case mappings. The result depends on `text` alone.
pub uninterp spec fn lowercase(text: Seq<char>) -> Seq<char>;

/// Calls `str::to_lowercase`.
#[verifier::external_body]
pub(crate) fn to_lowercase(text: &str) -> (lowered: String)
    ensures
        lowered@ == lowercase(text@),
{
    text.to_lowercase()
}

/// What the regular expression `pattern` captures in `haystack`, as the
/// crate `regex` finds it: `None` where the pattern has no match in the
/// haystack (or is no valid pattern); otherwise one entry for each capture
/// group of the pattern, in the order of their opening parentheses and
/// starting with the whole match as group 0, each entry holding the text that
/// the group matched, or `None` for a group that took no part in the match.
/// The result depends on the two arguments alone.
pub uninterp spec fn regex_captures(pattern: Seq<char>, haystack: Seq<char>) -> Option<
    Seq<Option<Seq<char>>>,
>;

/// Compiles `pattern` with `regex::Regex::new`, searches `haystack` with
/// `Regex::captures` and copies the text of each group out of
/// `Captures::iter`.
#[verifier::external_body]
pub(crate) fn captures(pattern: &str, haystack: &str) -> (found: Option<Vec<Option<String>>>)
    ensures
        found.deep_view() == regex_captures(pattern@, haystack@),
{
    match regex::Regex::new(pattern) {
        Ok(re) => re.captures(haystack).map(
            |caps| caps.iter().map(|group| group.map(|m| m.as_str().to_string())).collect(),
        ),
        Err(_) => None,
    }
}

/// Calls `itertools::join` on the strings of `items`: the result is the
/// first string, and for each further one the separator and that string.
#[verifier::external_body]
pub(crate) fn join(items: &[String], sep: &str) -> (text: String)
    ensures
        text@ == joined(items.deep_view(), sep@),
{
    itertools::join(items, sep)
}

/// Calls `Itertools::dropping` on an iterator over `items`, which consumes
/// the first `n` items, and collects clones of those that follow.
#[verifier::external_body]
pub(crate) fn dropping(items: &[String], n: usize) -> (rest: Vec<String>)
    ensures
        rest.deep_view() == dropped(items.deep_view(), n as nat),
{
    itertools::Itertools::dropping(items.iter(), n).cloned().collect()
}

} // verus!
