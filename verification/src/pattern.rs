//! Matching a text against a regular expression.

use vstd::prelude::*;

verus! {

/// The texts of the capture groups of a match, group 0 first. A group that
/// took no part in the match has none.
pub type GroupsV = Seq<Option<Seq<char>>>;

/// The views of the groups of a match.
pub open spec fn groups_view(groups: Vec<Option<String>>) -> GroupsV {
    Seq::new(
        groups@.len(),
        |i: int|
            match groups@[i] {
                Some(text) => Some(text@),
                None => None,
            },
    )
}

/// The view of the outcome of a search.
pub open spec fn outcome_view(outcome: Option<Option<Vec<Option<String>>>>) -> Option<
    Option<GroupsV>,
> {
    match outcome {
        None => None,
        Some(None) => Some(None),
        Some(Some(groups)) => Some(Some(groups_view(groups))),
    }
}

/// What the first match of `pattern` in `text` captures, as the regular
/// expression engine finds it: nothing at all where the pattern does not
/// compile, no groups where the text holds no match, and else the texts of
/// the groups of the leftmost match.
pub uninterp spec fn first_match(pattern: Seq<char>, text: Seq<char>) -> Option<Option<GroupsV>>;

/// `regex::Regex::new` followed by `Regex::captures`. The pattern is
/// compiled and the text searched for its leftmost match; the groups of
/// that match are copied out, in order. What is found is not restated
/// here: the contract names it as a function of the pattern and the text.
#[verifier::external_body]
pub(crate) fn search(pattern: &str, text: &str) -> (r: Option<Option<Vec<Option<String>>>>)
    ensures
        outcome_view(r) == first_match(pattern@, text@),
{
    match regex::Regex::new(pattern) {
        Err(_) => None,
        Ok(re) => match re.captures(text) {
            None => Some(None),
            Some(found) => Some(
                Some(found.iter().map(|g| g.map(|m| m.as_str().to_string())).collect()),
            ),
        },
    }
}

} // verus!
