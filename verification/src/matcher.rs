//! The fuzzy-match scoring that ranks groups and entries against a query.

use vstd::prelude::*;

use fuzzy_matcher::skim::SkimMatcherV2;
use fuzzy_matcher::FuzzyMatcher;

verus! {

/// The score that skim-style fuzzy matching assigns to `choice` under
/// `pattern`: `None` when the pattern does not match the choice at all,
/// otherwise a score where higher means a better match. With the default
/// matcher configuration the score is a function of the two strings alone.
pub uninterp spec fn fuzzy_score(choice: Seq<char>, pattern: Seq<char>) -> Option<i64>;

/// Relies on fuzzy_matcher's `SkimMatcherV2::fuzzy_match` with the default
/// configuration: the result depends on the two strings alone.
#[verifier::external_body]
pub(crate) fn fuzzy_match_score(choice: &str, pattern: &str) -> (r: Option<i64>)
    ensures
        r == fuzzy_score(choice@, pattern@),
{
    SkimMatcherV2::default().fuzzy_match(choice, pattern)
}

} // verus!
