//! Scores of candidates against a query, taken from the skim fuzzy matcher.

use fuzzy_matcher::skim::SkimMatcherV2;
use fuzzy_matcher::FuzzyMatcher;
use vstd::prelude::*;

use crate::matching::{contains_in_order, holds_in_order};

verus! {

/// The longest query, in code points, that is handed to the scorer. The scorer adds up
/// at most 32 points for each character of the query in 32-bit arithmetic, so a query
/// of this length keeps every sum it forms far inside that range.
pub const SCORED_QUERY_LIMIT: usize = 0x100_0000;

/// What skim's matcher, in its default configuration, answers for a choice and a
/// pattern: `None` where it finds no match, else the score of the best alignment.
pub uninterp spec fn skim_score(choice: Seq<char>, pattern: Seq<char>) -> Option<i64>;

/// The scorer's answer for a text and a query, where the query is short enough to be
/// handed to it.
pub open spec fn scorer_answer(text: Seq<char>, query: Seq<char>) -> Option<i64> {
    if query.len() <= SCORED_QUERY_LIMIT {
        skim_score(text, query)
    } else {
        None
    }
}

/// The value by which an answer of the scorer is ranked: the score, and the lowest
/// value there is where the scorer gave none.
pub open spec fn rank_value(answer: Option<i64>) -> i64 {
    match answer {
        Some(score) => score,
        None => i64::MIN,
    }
}

/// The score under which a text is ranked for a query. A text has one exactly when it
/// holds the query's characters in order; the score is then the rank value of the
/// scorer's answer.
pub open spec fn match_score(text: Seq<char>, query: Seq<char>) -> Option<i64> {
    if contains_in_order(text, query) {
        Some(rank_value(scorer_answer(text, query)))
    } else {
        None
    }
}

/// Calls `fuzzy_match` of `fuzzy_matcher::skim::SkimMatcherV2`, on a matcher made by
/// `SkimMatcherV2::default()` for this one call, with `choice` and the text of `pattern`.
/// The contract claims that the answer depends on the two texts alone, and gives it the
/// name `skim_score`; nothing is claimed about which texts match or how they score.
/// Longer patterns than `SCORED_QUERY_LIMIT` are kept from the call: the sums that the
/// matcher forms for them could leave the range of its 32-bit arithmetic.
#[verifier::external_body]
fn fuzzy_score(choice: &str, pattern: &Vec<char>) -> (score: Option<i64>)
    requires
        pattern@.len() <= SCORED_QUERY_LIMIT,
    ensures
        score == skim_score(choice@, pattern@),
{
    let pattern_text: String = pattern.iter().collect();
    SkimMatcherV2::default().fuzzy_match(choice, &pattern_text)
}

/// The scorer's answer for `text` and `query`; none for a query too long to be scored.
pub fn ask_scorer(text: &str, query: &Vec<char>) -> (answer: Option<i64>)
    ensures
        answer == scorer_answer(text@, query@),
{
    if query.len() <= SCORED_QUERY_LIMIT {
        fuzzy_score(text, query)
    } else {
        None
    }
}

/// The score under which a text is ranked, from whether it holds the query in order
/// and from what the scorer answered.
pub fn score_of_answer(holds_query: bool, answer: Option<i64>) -> (score: Option<i64>)
    ensures
        score == if holds_query {
            Some(rank_value(answer))
        } else {
            None::<i64>
        },
{
    if holds_query {
        match answer {
            Some(score) => Some(score),
            None => Some(i64::MIN),
        }
    } else {
        None
    }
}

/// The score under which `text` is ranked for `query`.
pub fn score_text(text: &str, query: &Vec<char>) -> (score: Option<i64>)
    ensures
        score == match_score(text@, query@),
        score is Some <==> contains_in_order(text@, query@),
{
    if holds_in_order(text, query) {
        score_of_answer(true, ask_scorer(text, query))
    } else {
        None
    }
}

} // verus!
