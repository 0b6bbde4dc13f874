//! The pattern engine: compiled patterns and what they find in a text.

use regex::Regex;
use vstd::prelude::*;

verus! {

/// Declares `regex::Regex`, a compiled pattern, which this crate passes on
/// without looking inside.
#[verifier::external_type_specification]
#[verifier::external_body]
pub struct RegexType(Regex);

/// What `Regex::new` makes of a pattern: the compiled pattern, or nothing
/// where it does not accept the pattern.
pub uninterp spec fn compiled(pattern: Seq<char>) -> Option<Regex>;

/// What `Regex::captures` finds in a text: nothing if the pattern matches
/// nowhere, else the groups of the leftmost match, the whole match first and
/// then each group of the pattern in the order of its opening parenthesis,
/// with the text of each group that took part in the match.
pub uninterp spec fn captures_of(regex: Regex, haystack: Seq<char>) -> Option<
    Seq<Option<Seq<char>>>,
>;

/// Calls `Regex::new` and keeps the compiled pattern, if there is one. The
/// result is what `compiled` names for the pattern.
#[verifier::external_body]
pub(crate) fn compile(pattern: &str) -> (regex: Option<Regex>)
    ensures
        regex == compiled(pattern@),
{
    Regex::new(pattern).ok()
}

/// What the groups of a match hold: the text of each group that took part
/// in the match, in order.
pub open spec fn fields_of(groups: Seq<Option<String>>) -> Seq<Option<Seq<char>>> {
    groups.map_values(
        |group: Option<String>|
            match group {
                Some(text) => Some(text@),
                None => None,
            },
    )
}

/// What an optional list of groups holds.
pub open spec fn found_fields(groups: Option<Vec<Option<String>>>) -> Option<
    Seq<Option<Seq<char>>>,
> {
    match groups {
        Some(groups) => Some(fields_of(groups@)),
        None => None,
    }
}

/// Calls `Regex::captures` and copies the text of each group out of the
/// match. The result holds what `captures_of` names for this pattern and text.
#[verifier::external_body]
pub(crate) fn captures(regex: &Regex, haystack: &str) -> (groups: Option<Vec<Option<String>>>)
    ensures
        found_fields(groups) == captures_of(*regex, haystack@),
{
    regex.captures(haystack).map(
        |found| found.iter().map(|group| group.map(|text| text.as_str().to_owned())).collect(),
    )
}

} // verus!
