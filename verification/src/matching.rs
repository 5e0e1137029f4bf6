//! Ordered containment of a query in a text.

use vstd::prelude::*;

verus! {

/// `at` places each character of `query` on an equal character of `text`,
/// at positions that strictly increase.
pub open spec fn is_embedding(at: Seq<int>, text: Seq<char>, query: Seq<char>) -> bool {
    &&& at.len() == query.len()
    &&& forall|k: int| 0 <= k < at.len() ==> 0 <= #[trigger] at[k] < text.len() && text[at[k]] == query[k]
    &&& forall|j: int, k: int| 0 <= j < k < at.len() ==> at[j] < at[k]
}

/// `text` holds the characters of `query` in order, not necessarily side by side.
pub open spec fn contains_in_order(text: Seq<char>, query: Seq<char>) -> bool {
    exists|at: Seq<int>| is_embedding(at, text, query)
}

/// Tests whether `text` holds the characters of `query` in order.
pub fn holds_in_order(text: &str, query: &Vec<char>) -> (found: bool)
    ensures
        found == contains_in_order(text@, query@),
{
    let mut matched: usize = 0;
    let ghost mut at: Seq<int> = Seq::empty();
    for c in it: text.chars()
        invariant
            it.seq() == text@,
            matched <= query.len(),
            matched <= it.index(),
            is_embedding(at, text@.take(it.index()), query@.take(matched as int)),
            forall|other: Seq<int>| #[trigger] is_embedding(other, text@, query@) && matched < query.len()
                ==> other[matched as int] >= it.index(),
    {
        if matched < query.len() && query[matched] == c {
            proof {
                at = at.push(it.index());
            }
            matched = matched + 1;
        }
    }
    proof {
        assert(text@.take(text@.len() as int) == text@);
        if matched == query.len() {
            assert(query@.take(matched as int) == query@);
        }
    }
    matched == query.len()
}

} // verus!
