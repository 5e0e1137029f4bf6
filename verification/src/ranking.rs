//! Ordering of scored entries: best score first, earlier entry first among equals.

use vstd::prelude::*;

verus! {

/// Entry `a` comes before entry `b`: it has the higher score, or the same score and
/// the earlier place in the input.
pub open spec fn outranks(scores: Seq<Option<i64>>, a: int, b: int) -> bool {
    scores[a]->0 > scores[b]->0 || (scores[a]->0 == scores[b]->0 && a < b)
}

/// `order` lists the places of `scores` that hold a score, each of them once, so that
/// every listed place outranks all that are listed after it.
pub open spec fn is_ranking(order: Seq<int>, scores: Seq<Option<i64>>) -> bool {
    &&& forall|k: int|
        0 <= k < order.len() ==> 0 <= (#[trigger] order[k]) < scores.len() && scores[order[k]] is Some
    &&& forall|i: int|
        0 <= i < scores.len() && (#[trigger] scores[i]) is Some ==> exists|k: int|
            0 <= k < order.len() && #[trigger] order[k] == i
    &&& forall|j: int, k: int|
        0 <= j < k < order.len() ==> outranks(scores, #[trigger] order[j], #[trigger] order[k])
}

/// The ranking of `scores`. There is exactly one: see `ranking_exists` and
/// `ranking_is_unique`.
pub open spec fn ranking(scores: Seq<Option<i64>>) -> Seq<int> {
    choose|order: Seq<int>| is_ranking(order, scores)
}

/// The places that a vector of indices stands for.
pub open spec fn places(order: Seq<usize>) -> Seq<int> {
    order.map_values(|place: usize| place as int)
}

/// A ranking of all but the last entry is a ranking of all of them when the last
/// entry has no score.
proof fn lemma_skip_unscored(order: Seq<int>, scores: Seq<Option<i64>>)
    requires
        scores.len() > 0,
        scores.last() is None,
        is_ranking(order, scores.drop_last()),
    ensures
        is_ranking(order, scores),
{
    let rest = scores.drop_last();
    assert forall|i: int| 0 <= i < scores.len() && (#[trigger] scores[i]) is Some implies exists|k: int|
        0 <= k < order.len() && #[trigger] order[k] == i by {
        assert(rest[i] is Some);
    }
    assert forall|j: int, k: int| 0 <= j < k < order.len() implies outranks(
        scores,
        #[trigger] order[j],
        #[trigger] order[k],
    ) by {
        assert(outranks(rest, order[j], order[k]));
    }
}

/// A ranking of all but the last entry becomes a ranking of all of them when the last
/// entry's place is put in behind every place whose score is at least as high.
proof fn lemma_insert_scored(order: Seq<int>, scores: Seq<Option<i64>>, p: int)
    requires
        0 < scores.len(),
        scores.last() is Some,
        is_ranking(order, scores.drop_last()),
        0 <= p <= order.len(),
        p > 0 ==> scores[order[p - 1]]->0 >= scores.last()->0,
        forall|k: int| p <= k < order.len() ==> scores[#[trigger] order[k]]->0 < scores.last()->0,
    ensures
        is_ranking(order.insert(p, scores.len() - 1), scores),
{
    let rest = scores.drop_last();
    let last: int = scores.len() - 1;
    let grown = order.insert(p, last);
    assert forall|k: int| 0 <= k < grown.len() implies 0 <= (#[trigger] grown[k]) < scores.len()
        && scores[grown[k]] is Some by {
        if k < p {
            assert(grown[k] == order[k]);
            assert(rest[order[k]] is Some);
        } else if k > p {
            assert(grown[k] == order[k - 1]);
            assert(rest[order[k - 1]] is Some);
        }
    }
    assert forall|i: int| 0 <= i < scores.len() && (#[trigger] scores[i]) is Some implies exists|k: int|
        0 <= k < grown.len() && #[trigger] grown[k] == i by {
        if i == last {
            assert(grown[p] == i);
        } else {
            assert(rest[i] is Some);
            let k = choose|k: int| 0 <= k < order.len() && #[trigger] order[k] == i;
            if k < p {
                assert(grown[k] == i);
            } else {
                assert(grown[k + 1] == i);
            }
        }
    }
    assert forall|j: int, k: int| 0 <= j < k < grown.len() implies outranks(
        scores,
        #[trigger] grown[j],
        #[trigger] grown[k],
    ) by {
        let a: int = if j < p { j } else { j - 1 };
        let b: int = if k < p { k } else { k - 1 };
        if j == p {
            assert(grown[k] == order[k - 1]);
        } else if k == p {
            assert(grown[j] == order[j]);
            assert(order[j] < rest.len());
            if j < p - 1 {
                assert(outranks(rest, order[j], order[p - 1]));
            }
        } else {
            assert(grown[j] == order[a]);
            assert(grown[k] == order[b]);
            assert(outranks(rest, order[a], order[b]));
        }
    }
}

/// A place to put the last entry's place in: behind every listed place whose score is
/// at least as high, found by going back from `n`.
proof fn lemma_split(order: Seq<int>, scores: Seq<Option<i64>>, n: int) -> (p: int)
    requires
        0 < scores.len(),
        scores.last() is Some,
        0 <= n <= order.len(),
        forall|k: int| n <= k < order.len() ==> scores[#[trigger] order[k]]->0 < scores.last()->0,
    ensures
        0 <= p <= n,
        p > 0 ==> scores[order[p - 1]]->0 >= scores.last()->0,
        forall|k: int| p <= k < order.len() ==> scores[#[trigger] order[k]]->0 < scores.last()->0,
    decreases n,
{
    if n > 0 && scores[order[n - 1]]->0 < scores.last()->0 {
        lemma_split(order, scores, n - 1)
    } else {
        n
    }
}

/// Some ranking of `scores`, built up entry by entry.
proof fn lemma_build(scores: Seq<Option<i64>>) -> (order: Seq<int>)
    ensures
        is_ranking(order, scores),
    decreases scores.len(),
{
    if scores.len() == 0 {
        Seq::empty()
    } else {
        let rest = lemma_build(scores.drop_last());
        if scores.last() is Some {
            let p = lemma_split(rest, scores, rest.len() as int);
            lemma_insert_scored(rest, scores, p);
            rest.insert(p, scores.len() - 1)
        } else {
            lemma_skip_unscored(rest, scores);
            rest
        }
    }
}

/// Two rankings of the same scores agree on their first `n` places.
proof fn lemma_same_prefix(a: Seq<int>, b: Seq<int>, scores: Seq<Option<i64>>, n: int)
    requires
        is_ranking(a, scores),
        is_ranking(b, scores),
        0 <= n <= a.len(),
        n <= b.len(),
    ensures
        forall|j: int| 0 <= j < n ==> a[j] == b[j],
    decreases n,
{
    if n > 0 {
        lemma_same_prefix(a, b, scores, n - 1);
        let k = n - 1;
        if a[k] != b[k] {
            assert(scores[a[k]] is Some);
            assert(scores[b[k]] is Some);
            let m = choose|m: int| 0 <= m < b.len() && #[trigger] b[m] == a[k];
            let w = choose|w: int| 0 <= w < a.len() && #[trigger] a[w] == b[k];
            if m < k {
                assert(outranks(scores, a[m], a[k]));
            } else if w < k {
                assert(outranks(scores, b[w], b[k]));
            } else {
                assert(outranks(scores, b[k], b[m]));
                assert(outranks(scores, a[k], a[w]));
            }
        }
    }
}

/// A ranking is no longer than another ranking of the same scores.
proof fn lemma_not_longer(a: Seq<int>, b: Seq<int>, scores: Seq<Option<i64>>)
    requires
        is_ranking(a, scores),
        is_ranking(b, scores),
    ensures
        a.len() <= b.len(),
{
    if a.len() > b.len() {
        let n = b.len() as int;
        lemma_same_prefix(a, b, scores, n);
        assert(scores[a[n]] is Some);
        let m = choose|m: int| 0 <= m < b.len() && #[trigger] b[m] == a[n];
        assert(outranks(scores, a[m], a[n]));
    }
}

/// Every sequence of scores has a ranking, and `ranking` names it.
pub proof fn ranking_exists(scores: Seq<Option<i64>>)
    ensures
        is_ranking(ranking(scores), scores),
{
    let built = lemma_build(scores);
    assert(is_ranking(built, scores));
}

/// A sequence of scores has one ranking only: the order of the output is fully
/// determined by the scores and the order of the input.
pub proof fn ranking_is_unique(a: Seq<int>, b: Seq<int>, scores: Seq<Option<i64>>)
    requires
        is_ranking(a, scores),
        is_ranking(b, scores),
    ensures
        a == b,
{
    lemma_not_longer(a, b, scores);
    lemma_not_longer(b, a, scores);
    lemma_same_prefix(a, b, scores, a.len() as int);
    assert(a =~= b);
}

/// The ranking is a stable sort by falling score: of two listed places the one listed
/// first has no lower score, and where their scores are equal it is the one that
/// stands first in the input.
pub proof fn ranking_is_stable_sort(scores: Seq<Option<i64>>, j: int, k: int)
    requires
        0 <= j < k < ranking(scores).len(),
    ensures
        scores[ranking(scores)[j]]->0 >= scores[ranking(scores)[k]]->0,
        scores[ranking(scores)[j]]->0 == scores[ranking(scores)[k]]->0 ==> ranking(scores)[j]
            < ranking(scores)[k],
{
    ranking_exists(scores);
    assert(outranks(scores, ranking(scores)[j], ranking(scores)[k]));
}

/// The ranking lists exactly the places that hold a score, and none of them twice.
pub proof fn ranking_lists_scored_places(scores: Seq<Option<i64>>)
    ensures
        forall|i: int| ranking(scores).contains(i) <==> 0 <= i < scores.len() && scores[i] is Some,
        ranking(scores).no_duplicates(),
{
    ranking_exists(scores);
    let order = ranking(scores);
    assert forall|i: int| order.contains(i) <==> 0 <= i < scores.len() && scores[i] is Some by {
        if 0 <= i < scores.len() && scores[i] is Some {
            let k = choose|k: int| 0 <= k < order.len() && #[trigger] order[k] == i;
            assert(order.contains(i));
        }
        if order.contains(i) {
            let k = choose|k: int| 0 <= k < order.len() && order[k] == i;
            assert(0 <= order[k] < scores.len());
        }
    }
    assert forall|j: int, k: int| 0 <= j < order.len() && 0 <= k < order.len() && j != k implies order[j]
        != order[k] by {
        if j < k {
            assert(outranks(scores, order[j], order[k]));
        } else {
            assert(outranks(scores, order[k], order[j]));
        }
    }
}

/// Lists the places of `scores` that hold a score: highest score first, and places
/// with the same score in the order in which they stand in `scores`.
pub fn rank_by_score(scores: &Vec<Option<i64>>) -> (order: Vec<usize>)
    ensures
        places(order@) == ranking(scores@),
        is_ranking(places(order@), scores@),
{
    let mut order: Vec<usize> = Vec::new();
    let mut i: usize = 0;
    while i < scores.len()
        invariant
            i <= scores.len(),
            is_ranking(places(order@), scores@.take(i as int)),
            forall|k: int| 0 <= k < order.len() ==> (#[trigger] order[k]) < i && scores[order[k] as int] is Some,
        decreases scores.len() - i,
    {
        let ghost seen = scores@.take(i + 1);
        assert(seen.drop_last() == scores@.take(i as int));
        match scores[i] {
            Some(score) => {
                let mut p: usize = order.len();
                while p > 0 && lower_at(scores, order[p - 1], score)
                    invariant
                        i < scores.len(),
                        scores[i as int] == Some(score),
                        is_ranking(places(order@), scores@.take(i as int)),
                        forall|k: int|
                            0 <= k < order.len() ==> (#[trigger] order[k]) < i && scores[order[k] as int] is Some,
                        p <= order.len(),
                        forall|k: int|
                            p <= k < order.len() ==> scores[#[trigger] places(order@)[k]]->0 < score,
                    decreases p,
                {
                    assert(places(order@)[p - 1] == order[p - 1]);
                    p = p - 1;
                }
                proof {
                    if p > 0 {
                        assert(places(order@)[p - 1] == order[p - 1]);
                    }
                    lemma_insert_scored(places(order@), seen, p as int);
                    assert(places(order@.insert(p as int, i)) == places(order@).insert(p as int, i as int));
                }
                order.insert(p, i);
            },
            None => {
                proof {
                    lemma_skip_unscored(places(order@), seen);
                }
            },
        }
        i = i + 1;
    }
    proof {
        assert(scores@.take(i as int) == scores@);
        ranking_exists(scores@);
        ranking_is_unique(places(order@), ranking(scores@), scores@);
    }
    order
}

/// Whether the entry at `place` has a score below `score`.
fn lower_at(scores: &Vec<Option<i64>>, place: usize, score: i64) -> (lower: bool)
    requires
        place < scores.len(),
        scores[place as int] is Some,
    ensures
        lower == (scores[place as int]->0 < score),
{
    match scores[place] {
        Some(other) => other < score,
        None => false,
    }
}

} // verus!
