//! Small reusable facts about `Seq::filter`, used by the audio registry and
//! the lifecycle reaper.

use vstd::prelude::*;

verus! {

/// Appending one element to a list and filtering is filtering and then
/// appending the element when it passes the predicate.
pub proof fn lemma_filter_push<A>(t: Seq<A>, x: A, pred: spec_fn(A) -> bool)
    ensures
        t.push(x).filter(pred) == (if pred(x) {
            t.filter(pred).push(x)
        } else {
            t.filter(pred)
        }),
{
    reveal(Seq::filter);
    assert(t.push(x).drop_last() =~= t);
    assert(t.push(x).last() == x);
}

/// Every element of a filtered list is an element of the original list.
pub proof fn lemma_filter_subset<A>(s: Seq<A>, pred: spec_fn(A) -> bool)
    ensures
        forall|i: int|
            0 <= i < s.filter(pred).len() ==> s.contains(#[trigger] s.filter(pred)[i]),
    decreases s.len(),
{
    reveal(Seq::filter);
    if s.len() > 0 {
        lemma_filter_subset(s.drop_last(), pred);
        assert forall|i: int| 0 <= i < s.filter(pred).len() implies s.contains(
            #[trigger] s.filter(pred)[i],
        ) by {
            let sub = s.drop_last().filter(pred);
            if i < sub.len() {
                let v = sub[i];
                let j = choose|j: int| 0 <= j < s.drop_last().len() && s.drop_last()[j] == v;
                assert(s[j] == v);
            } else {
                assert(s.filter(pred)[i] == s.last());
                assert(s[s.len() - 1] == s.last());
            }
        }
    }
}

/// Every element that passes the predicate is kept by the filter.
pub proof fn lemma_filter_keeps<A>(s: Seq<A>, pred: spec_fn(A) -> bool, i: int)
    requires
        0 <= i < s.len(),
        pred(s[i]),
    ensures
        s.filter(pred).contains(s[i]),
    decreases s.len(),
{
    reveal(Seq::filter);
    if i == s.len() - 1 {
        assert(s.last() == s[i]);
        assert(s.filter(pred).last() == s[i]);
    } else {
        lemma_filter_keeps(s.drop_last(), pred, i);
        let sub = s.drop_last().filter(pred);
        let j = choose|j: int| 0 <= j < sub.len() && sub[j] == s.drop_last()[i];
        if pred(s.last()) {
            assert(s.filter(pred)[j] == sub[j]);
        } else {
            assert(s.filter(pred)[j] == sub[j]);
        }
    }
}

/// Appending an element keeps every element the list already contained.
pub proof fn lemma_push_preserves_contains<A>(s: Seq<A>, x: A, y: A)
    requires
        s.contains(y),
    ensures
        s.push(x).contains(y),
{
    let i = choose|i: int| 0 <= i < s.len() && s[i] == y;
    assert(s.push(x)[i] == y);
}

/// An element contained after a push was either already present or is the
/// pushed element itself.
pub proof fn lemma_push_contains_cases<A>(s: Seq<A>, x: A, y: A)
    requires
        s.push(x).contains(y),
    ensures
        s.contains(y) || y == x,
{
    let i = choose|i: int| 0 <= i < s.push(x).len() && s.push(x)[i] == y;
    if i < s.len() {
        assert(s[i] == y);
    }
}

/// Every element of a filtered list passes the predicate.
pub proof fn lemma_filter_all_pred<A>(s: Seq<A>, pred: spec_fn(A) -> bool)
    ensures
        forall|i: int| 0 <= i < s.filter(pred).len() ==> pred(#[trigger] s.filter(pred)[i]),
    decreases s.len(),
{
    reveal(Seq::filter);
    if s.len() > 0 {
        lemma_filter_all_pred(s.drop_last(), pred);
    }
}

/// Membership in a filtered list: kept exactly when contained and passing.
pub proof fn lemma_filter_membership<A>(s: Seq<A>, pred: spec_fn(A) -> bool, y: A)
    ensures
        pred(y) ==> (s.filter(pred).contains(y) <==> s.contains(y)),
        !pred(y) ==> !s.filter(pred).contains(y),
{
    lemma_filter_subset(s, pred);
    lemma_filter_all_pred(s, pred);
    if pred(y) && s.contains(y) {
        let i = choose|i: int| 0 <= i < s.len() && s[i] == y;
        lemma_filter_keeps(s, pred, i);
    }
    if s.filter(pred).contains(y) {
        let i = choose|i: int| 0 <= i < s.filter(pred).len() && s.filter(pred)[i] == y;
        assert(pred(s.filter(pred)[i]));
    }
}

/// Filtering with a predicate that holds of every element changes nothing.
pub proof fn lemma_filter_retains_all<A>(s: Seq<A>, pred: spec_fn(A) -> bool)
    requires
        forall|i: int| 0 <= i < s.len() ==> pred(#[trigger] s[i]),
    ensures
        s.filter(pred) == s,
    decreases s.len(),
{
    reveal(Seq::filter);
    if s.len() > 0 {
        assert(forall|i: int|
            0 <= i < s.drop_last().len() ==> pred(#[trigger] s.drop_last()[i]));
        lemma_filter_retains_all(s.drop_last(), pred);
        assert(s.drop_last().push(s.last()) =~= s);
    }
}

/// Filtering a list twice with the same predicate is the same as once.
pub proof fn lemma_filter_idempotent<A>(s: Seq<A>, pred: spec_fn(A) -> bool)
    ensures
        s.filter(pred).filter(pred) == s.filter(pred),
    decreases s.len(),
{
    reveal(Seq::filter);
    if s.len() > 0 {
        lemma_filter_idempotent(s.drop_last(), pred);
        if pred(s.last()) {
            lemma_filter_push(s.drop_last().filter(pred), s.last(), pred);
        }
    }
}

} // verus!
