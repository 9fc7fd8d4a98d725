//! Regular expressions, as the `regex` crate reads them.

use vstd::prelude::*;

verus! {

/// The parts of a text that a pattern fits, from left to right and never
/// overlapping; `None` for a pattern that the `regex` crate refuses.
pub uninterp spec fn regex_matches(pattern: Seq<char>, text: Seq<char>) -> Option<Seq<Seq<char>>>;

/// What the groups of a pattern hold where the pattern first fits a text:
/// the whole match first, then each group in turn, `None` for a group
/// that took no part. `None` for a pattern that the `regex` crate refuses
/// and for a text that the pattern fits nowhere.
pub uninterp spec fn regex_groups(pattern: Seq<char>, text: Seq<char>) -> Option<
    Seq<Option<Seq<char>>>,
>;

/// A list of matches as the contracts see it.
pub open spec fn matches_view(r: Option<Vec<String>>) -> Option<Seq<Seq<char>>> {
    match r {
        Some(v) => Some(v.deep_view()),
        None => None,
    }
}

/// A group as the contracts see it.
pub open spec fn group_view(g: Option<String>) -> Option<Seq<char>> {
    match g {
        Some(s) => Some(s@),
        None => None,
    }
}

/// A list of groups as the contracts see it.
pub open spec fn groups_view(r: Option<Vec<Option<String>>>) -> Option<Seq<Option<Seq<char>>>> {
    match r {
        Some(v) => Some(Seq::new(v@.len(), |i: int| group_view(v@[i]))),
        None => None,
    }
}

/// `Regex::new` and `Regex::find_iter`: every match of the pattern in the
/// text, in order. Nothing is claimed of the matches but that the same
/// pattern and text always give the same.
#[verifier::external_body]
pub(crate) fn find_all(pattern: &str, text: &str) -> (r: Option<Vec<String>>)
    ensures
        matches_view(r) == regex_matches(pattern@, text@),
{
    let re = regex::Regex::new(pattern).ok()?;
    Some(re.find_iter(text).map(|m| m.as_str().to_string()).collect())
}

/// `Regex::new` and `Regex::captures`: the groups of the first match of
/// the pattern in the text. Nothing is claimed of the groups but that the
/// same pattern and text always give the same.
#[verifier::external_body]
pub(crate) fn first_groups(pattern: &str, text: &str) -> (r: Option<Vec<Option<String>>>)
    ensures
        groups_view(r) == regex_groups(pattern@, text@),
{
    let re = regex::Regex::new(pattern).ok()?;
    let caps = re.captures(text)?;
    Some(caps.iter().map(|g| g.map(|m| m.as_str().to_string())).collect())
}

} // verus!
