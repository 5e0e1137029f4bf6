//! The fuzzy ranker: from a query and the candidate store to the list that is shown.

use vstd::prelude::*;
use vstd::set_lib::{lemma_int_range, lemma_len_subset, set_int_range};

use crate::candidate::Candidate;
use crate::matching::{contains_in_order, is_embedding};
use crate::ranking::{
    is_ranking, places, rank_by_score, ranking, ranking_exists, ranking_is_stable_sort,
    ranking_lists_scored_places,
};
use crate::scorer::{match_score, score_text};

verus! {

/// The score of each candidate's path for `query`, in the order of the store.
pub open spec fn candidate_scores(query: Seq<char>, candidates: Seq<Candidate>) -> Seq<Option<i64>> {
    candidates.map_values(|c: Candidate| match_score(c@.path, query))
}

/// The candidates that stand at the places of `order`, in that order.
pub open spec fn pick(candidates: Seq<Candidate>, order: Seq<int>) -> Seq<Candidate> {
    order.map_values(|place: int| candidates[place])
}

/// What is shown for `query`: the whole store in its own order where the query is
/// empty, else the candidates whose path holds the query in order, ranked by score.
pub open spec fn ranked(query: Seq<char>, candidates: Seq<Candidate>) -> Seq<Candidate> {
    if query.len() == 0 {
        candidates
    } else {
        pick(candidates, ranking(candidate_scores(query, candidates)))
    }
}

/// An empty query gives back the store as it is, in its own order.
pub proof fn empty_query_keeps_store(candidates: Seq<Candidate>)
    ensures
        ranked(Seq::<char>::empty(), candidates) == candidates,
{
}

/// Every candidate that is shown for a query holds the query's characters in order.
pub proof fn shown_candidates_contain_query(query: Seq<char>, candidates: Seq<Candidate>, k: int)
    requires
        0 <= k < ranked(query, candidates).len(),
    ensures
        contains_in_order(ranked(query, candidates)[k]@.path, query),
{
    if query.len() == 0 {
        assert(is_embedding(Seq::<int>::empty(), candidates[k]@.path, query));
    } else {
        let scores = candidate_scores(query, candidates);
        ranking_exists(scores);
        let place = ranking(scores)[k];
        assert(scores[place] is Some);
    }
}

/// Every candidate whose path holds the query's characters in order is shown.
pub proof fn candidates_with_query_are_shown(query: Seq<char>, candidates: Seq<Candidate>, i: int)
    requires
        0 <= i < candidates.len(),
        contains_in_order(candidates[i]@.path, query),
    ensures
        ranked(query, candidates).contains(candidates[i]),
{
    if query.len() == 0 {
        assert(ranked(query, candidates)[i] == candidates[i]);
    } else {
        let scores = candidate_scores(query, candidates);
        ranking_exists(scores);
        let order = ranking(scores);
        assert(scores[i] is Some);
        let k = choose|k: int| 0 <= k < order.len() && #[trigger] order[k] == i;
        assert(ranked(query, candidates)[k] == candidates[i]);
    }
}

/// What is shown for a query that is not empty is sorted by falling score, and
/// candidates of equal score stand as they stand in the store: in front of each other
/// shown candidate stands one from an earlier place or with a higher score.
pub proof fn shown_candidates_are_stably_sorted(
    query: Seq<char>,
    candidates: Seq<Candidate>,
    j: int,
    k: int,
)
    requires
        query.len() > 0,
        0 <= j < k < ranked(query, candidates).len(),
    ensures
        ({
            let scores = candidate_scores(query, candidates);
            let order = ranking(scores);
            &&& order.len() == ranked(query, candidates).len()
            &&& ranked(query, candidates)[j] == candidates[order[j]]
            &&& ranked(query, candidates)[k] == candidates[order[k]]
            &&& scores[order[j]] == match_score(candidates[order[j]]@.path, query)
            &&& scores[order[k]] == match_score(candidates[order[k]]@.path, query)
            &&& scores[order[j]]->0 >= scores[order[k]]->0
            &&& scores[order[j]]->0 == scores[order[k]]->0 ==> order[j] < order[k]
        }),
{
    let scores = candidate_scores(query, candidates);
    ranking_exists(scores);
    ranking_is_stable_sort(scores, j, k);
    let order = ranking(scores);
    assert(0 <= order[j] < scores.len());
    assert(0 <= order[k] < scores.len());
}

/// Every candidate that is shown stands in the store, and no more candidates are
/// shown than the store holds.
pub proof fn shown_candidates_come_from_store(query: Seq<char>, candidates: Seq<Candidate>, k: int)
    requires
        0 <= k < ranked(query, candidates).len(),
    ensures
        candidates.contains(ranked(query, candidates)[k]),
        ranked(query, candidates).len() <= candidates.len(),
{
    if query.len() == 0 {
    } else {
        let scores = candidate_scores(query, candidates);
        ranking_exists(scores);
        ranking_lists_scored_places(scores);
        let order = ranking(scores);
        assert(0 <= order[k] < candidates.len());
        order.unique_seq_to_set();
        let all_places = set_int_range(0, scores.len() as int);
        assert(order.to_set().subset_of(all_places)) by {
            assert forall|i: int| order.to_set().contains(i) implies all_places.contains(i) by {
                assert(order.contains(i));
            }
        }
        lemma_int_range(0, scores.len() as int);
        lemma_len_subset(order.to_set(), all_places);
    }
}

/// Ranks the store for a query. An empty query shows the whole store in its own order.
/// Any other query shows the candidates whose path holds the query's characters in
/// order: highest score first, and candidates of equal score in the order of the store.
pub fn rank_candidates(query: &Vec<char>, candidates: &Vec<Candidate>) -> (shown: Vec<Candidate>)
    ensures
        shown@ == ranked(query@, candidates@),
{
    if query.len() == 0 {
        let all = candidates.clone();
        assert(all@ =~= candidates@);
        return all;
    }
    let mut scores: Vec<Option<i64>> = Vec::new();
    let mut i: usize = 0;
    while i < candidates.len()
        invariant
            i <= candidates.len(),
            scores.len() == i,
            forall|j: int| 0 <= j < i ==> #[trigger] scores[j] == match_score(candidates[j]@.path, query@),
        decreases candidates.len() - i,
    {
        let score = score_text(candidates[i].path(), query);
        scores.push(score);
        i = i + 1;
    }
    assert(scores@ =~= candidate_scores(query@, candidates@));
    let order = rank_by_score(&scores);
    let mut shown: Vec<Candidate> = Vec::new();
    let mut k: usize = 0;
    while k < order.len()
        invariant
            k <= order.len(),
            shown.len() == k,
            scores.len() == candidates.len(),
            is_ranking(places(order@), scores@),
            forall|j: int| 0 <= j < k ==> #[trigger] shown[j] == candidates[order[j] as int],
        decreases order.len() - k,
    {
        assert(0 <= places(order@)[k as int] < scores.len());
        shown.push(candidates[order[k]].clone());
        k = k + 1;
    }
    assert(shown@ =~= pick(candidates@, places(order@)));
    shown
}

} // verus!
