//! Facts about filtered sequences.

use vstd::prelude::*;

verus! {

/// Filtering one item more.
pub proof fn lemma_filter_next<A>(s: Seq<A>, pred: spec_fn(A) -> bool, i: int)
    requires
        0 <= i < s.len(),
    ensures
        s.take(i + 1).filter(pred) == (if pred(s[i]) {
            s.take(i).filter(pred).push(s[i])
        } else {
            s.take(i).filter(pred)
        }),
{
    reveal(Seq::filter);
    assert(s.take(i + 1).drop_last() =~= s.take(i));
}

/// Filtering a part keeps no more than filtering the whole.
pub proof fn lemma_filter_part<A>(s: Seq<A>, pred: spec_fn(A) -> bool, i: int)
    requires
        0 <= i <= s.len(),
    ensures
        s.take(i).filter(pred).len() <= s.filter(pred).len(),
{
    assert(s =~= s.take(i) + s.skip(i));
    Seq::filter_distributes_over_add(s.take(i), s.skip(i), pred);
}

/// Where an item ends up: after as many as a filter keeps of those before it.
pub proof fn lemma_filter_rank<A>(s: Seq<A>, pred: spec_fn(A) -> bool, i: int)
    requires
        0 <= i < s.len(),
        pred(s[i]),
    ensures
        s.take(i).filter(pred).len() < s.filter(pred).len(),
        s.filter(pred)[s.take(i).filter(pred).len() as int] == s[i],
{
    let head = s.take(i + 1);
    lemma_filter_next(s, pred, i);
    assert(s =~= head + s.skip(i + 1));
    Seq::filter_distributes_over_add(head, s.skip(i + 1), pred);
    assert(head.filter(pred)[s.take(i).filter(pred).len() as int] == s[i]);
}

/// Filtering keeps the order.
pub proof fn lemma_filter_order<A>(s: Seq<A>, pred: spec_fn(A) -> bool, a: int, b: int)
    requires
        0 <= a < b < s.filter(pred).len(),
    ensures
        exists|i: int, j: int|
            0 <= i < j < s.len() && #[trigger] s[i] == s.filter(pred)[a] && #[trigger] s[j]
                == s.filter(pred)[b],
    decreases s.len(),
{
    reveal(Seq::filter);
    let kept = s.filter(pred);
    let rest = s.drop_last();
    let before = rest.filter(pred);
    if b < before.len() {
        lemma_filter_order(rest, pred, a, b);
        let (i, j) = choose|i: int, j: int|
            0 <= i < j < rest.len() && #[trigger] rest[i] == before[a] && #[trigger] rest[j]
                == before[b];
        assert(s[i] == kept[a] && s[j] == kept[b]);
    } else {
        assert(before.contains(before[a]));
        rest.lemma_filter_contains_rev(pred, before[a]);
        let i = choose|i: int| 0 <= i < rest.len() && rest[i] == before[a];
        assert(s[i] == kept[a] && s[s.len() - 1] == kept[b]);
    }
}

/// The first items, as many as there are up to a number.
pub open spec fn first<A>(s: Seq<A>, n: int) -> Seq<A> {
    if n <= 0 {
        Seq::empty()
    } else if n < s.len() {
        s.take(n)
    } else {
        s
    }
}

/// One item more is among the first if there is room.
pub proof fn lemma_first_next<A>(s: Seq<A>, item: A, n: int)
    ensures
        first(s.push(item), n) == (if s.len() < n {
            first(s, n).push(item)
        } else {
            first(s, n)
        }),
{
    assert(first(s.push(item), n) =~= if s.len() < n {
        first(s, n).push(item)
    } else {
        first(s, n)
    });
}

} // verus!
