//! Facts about filtered sequences.

use vstd::prelude::*;

verus! {

/// Filtering after appending one element.
pub proof fn lemma_filter_push<A>(s: Seq<A>, pred: spec_fn(A) -> bool, x: A)
    ensures
        s.push(x).filter(pred) == if pred(x) {
            s.filter(pred).push(x)
        } else {
            s.filter(pred)
        },
{
    reveal(Seq::filter);
    assert(s.push(x).drop_last() =~= s);
}

/// A filter that no element passes leaves nothing.
pub proof fn lemma_filter_none<A>(s: Seq<A>, pred: spec_fn(A) -> bool)
    requires
        forall|i: int| 0 <= i < s.len() ==> !pred(#[trigger] s[i]),
    ensures
        s.filter(pred).len() == 0,
    decreases s.len(),
{
    reveal(Seq::filter);
    if s.len() > 0 {
        lemma_filter_none(s.drop_last(), pred);
    }
}

/// What a filter lets through passes the filter and comes from the sequence.
pub proof fn lemma_filter_member<A>(s: Seq<A>, pred: spec_fn(A) -> bool, e: A)
    requires
        s.filter(pred).contains(e),
    ensures
        s.contains(e),
        pred(e),
    decreases s.len(),
{
    reveal(Seq::filter);
    if s.len() > 0 {
        let rest = s.drop_last().filter(pred);
        let at = choose|at: int| 0 <= at < s.filter(pred).len() && s.filter(pred)[at] == e;
        if pred(s.last()) && at == rest.len() {
            assert(s[s.len() - 1] == e);
        } else {
            assert(rest[at] == e);
            lemma_filter_member(s.drop_last(), pred, e);
            let from = choose|from: int| 0 <= from < s.drop_last().len() && s.drop_last()[from] == e;
            assert(s[from] == e);
        }
    }
}

/// Two elements that pass a filter are both let through.
pub proof fn lemma_filter_two<A>(s: Seq<A>, pred: spec_fn(A) -> bool, i: int, j: int)
    requires
        0 <= i < j < s.len(),
        pred(s[i]),
        pred(s[j]),
    ensures
        s.filter(pred).len() >= 2,
    decreases s.len(),
{
    reveal(Seq::filter);
    if j == s.len() - 1 {
        s.drop_last().lemma_filter_contains(pred, i);
    } else {
        lemma_filter_two(s.drop_last(), pred, i, j);
    }
}

} // verus!
