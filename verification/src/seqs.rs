//! Facts about filtered sequences that the collection's proofs share.

use vstd::prelude::*;

verus! {

/// A sequence none of whose elements fails the test is left as it is.
pub proof fn lemma_filter_all<A>(s: Seq<A>, pred: spec_fn(A) -> bool)
    requires
        forall|i: int| 0 <= i < s.len() ==> pred(#[trigger] s[i]),
    ensures
        s.filter(pred) == s,
    decreases s.len(),
{
    reveal(Seq::filter);
    if s.len() > 0 {
        lemma_filter_all(s.drop_last(), pred);
    }
}

/// What passes a filter is a part of the sequence in its old order: `at`
/// gives, for each position of the result, the position it was taken from.
pub proof fn lemma_filter_positions<A>(s: Seq<A>, pred: spec_fn(A) -> bool) -> (at: Seq<int>)
    ensures
        at.len() == s.filter(pred).len(),
        forall|k: int|
            0 <= k < at.len() ==> 0 <= #[trigger] at[k] < s.len() && s[at[k]] == s.filter(pred)[k],
        forall|k: int, l: int| 0 <= k < l < at.len() ==> at[k] < at[l],
    decreases s.len(),
{
    reveal(Seq::filter);
    if s.len() == 0 {
        Seq::empty()
    } else {
        let before = lemma_filter_positions(s.drop_last(), pred);
        if pred(s.last()) {
            before.push(s.len() - 1)
        } else {
            before
        }
    }
}

/// Filtering a sequence without repeats leaves no repeats.
pub proof fn lemma_filter_no_duplicates<A>(s: Seq<A>, pred: spec_fn(A) -> bool)
    requires
        s.no_duplicates(),
    ensures
        s.filter(pred).no_duplicates(),
{
    let at = lemma_filter_positions(s, pred);
    let kept = s.filter(pred);
    assert forall|k: int, l: int|
        0 <= k < kept.len() && 0 <= l < kept.len() && k != l implies kept[k] != kept[l] by {
        assert(s[at[k]] == kept[k]);
        assert(s[at[l]] == kept[l]);
    }
}

/// Where exactly one element fails the test, the filtered sequence is the
/// sequence without that element.
pub proof fn lemma_filter_one_out<A>(s: Seq<A>, pred: spec_fn(A) -> bool, i: int)
    requires
        0 <= i < s.len(),
        !pred(s[i]),
        forall|j: int| 0 <= j < s.len() && j != i ==> pred(#[trigger] s[j]),
    ensures
        s.filter(pred) == s.remove(i),
    decreases s.len(),
{
    reveal(Seq::filter);
    let front = s.drop_last();
    if i == s.len() - 1 {
        lemma_filter_all(front, pred);
    } else {
        lemma_filter_one_out(front, pred, i);
    }
}

} // verus!
