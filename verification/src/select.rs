//! Filtering a sequence by a mask, and what the filter preserves.

use vstd::prelude::*;

verus! {

/// The items of `items` whose entry in `keep` is `true`, in their order.
pub open spec fn select<T>(items: Seq<T>, keep: Seq<bool>) -> Seq<T>
    decreases items.len(),
{
    if items.len() == 0 {
        Seq::empty()
    } else {
        let rest = select(items.drop_last(), keep);
        if keep[items.len() - 1] {
            rest.push(items.last())
        } else {
            rest
        }
    }
}

/// What is selected from the first `n` items.
pub open spec fn select_upto<T>(items: Seq<T>, keep: Seq<bool>, n: int) -> Seq<T> {
    select(items.take(n), keep)
}

/// Selecting from one item more either appends that item or changes
/// nothing, as the mask says.
pub proof fn lemma_select_step<T>(items: Seq<T>, keep: Seq<bool>, n: int)
    requires
        0 <= n < items.len(),
    ensures
        select_upto(items, keep, n + 1) == if keep[n] {
            select_upto(items, keep, n).push(items[n])
        } else {
            select_upto(items, keep, n)
        },
{
    assert(items.take(n + 1).drop_last() == items.take(n));
}

/// Selecting from all items is selecting up to the length.
pub proof fn lemma_select_whole<T>(items: Seq<T>, keep: Seq<bool>)
    ensures
        select_upto(items, keep, items.len() as int) == select(items, keep),
{
    assert(items.take(items.len() as int) == items);
}

/// What is selected from a prefix is a prefix of what is selected from a
/// longer one.
pub proof fn lemma_select_prefix<T>(items: Seq<T>, keep: Seq<bool>, n: int, m: int)
    requires
        0 <= n <= m <= items.len(),
    ensures
        select_upto(items, keep, n).len() <= select_upto(items, keep, m).len(),
        select_upto(items, keep, m).take(select_upto(items, keep, n).len() as int) == select_upto(
            items,
            keep,
            n,
        ),
    decreases m - n,
{
    if n < m {
        lemma_select_prefix(items, keep, n, m - 1);
        lemma_select_step(items, keep, m - 1);
        if keep[m - 1] {
            let short = select_upto(items, keep, n);
            let before = select_upto(items, keep, m - 1);
            assert(before.push(items[m - 1]).take(short.len() as int) == before.take(
                short.len() as int,
            ));
        }
    }
}

/// An item that the mask keeps stands in the selection at the position
/// that the number of items kept before it gives.
pub proof fn lemma_select_position<T>(items: Seq<T>, keep: Seq<bool>, i: int)
    requires
        0 <= i < items.len(),
        keep[i],
    ensures
        select_upto(items, keep, i).len() < select(items, keep).len(),
        select(items, keep)[select_upto(items, keep, i).len() as int] == items[i],
        select_upto(items, keep, i + 1).len() == select_upto(items, keep, i).len() + 1,
{
    lemma_select_step(items, keep, i);
    lemma_select_prefix(items, keep, i + 1, items.len() as int);
    lemma_select_whole(items, keep);
    let p = select_upto(items, keep, i).len() as int;
    let longer = select_upto(items, keep, i + 1);
    assert(select(items, keep).take(longer.len() as int)[p] == select(items, keep)[p]);
}

/// Every item of the selection from the first `n` items is one of those
/// items that the mask keeps, at the position that the number of items
/// kept before it gives.
pub proof fn lemma_select_origin<T>(items: Seq<T>, keep: Seq<bool>, n: int, p: int) -> (i: int)
    requires
        0 <= n <= items.len(),
        0 <= p < select_upto(items, keep, n).len(),
    ensures
        0 <= i < n,
        keep[i],
        select_upto(items, keep, i).len() == p,
        items[i] == select_upto(items, keep, n)[p],
    decreases n,
{
    lemma_select_step(items, keep, n - 1);
    if keep[n - 1] && p == select_upto(items, keep, n - 1).len() {
        n - 1
    } else {
        lemma_select_origin(items, keep, n - 1, p)
    }
}

/// A mask that keeps every item selects the whole sequence.
pub proof fn lemma_select_all<T>(items: Seq<T>, keep: Seq<bool>)
    requires
        forall|i: int| 0 <= i < items.len() ==> keep[i],
    ensures
        select(items, keep) == items,
    decreases items.len(),
{
    if items.len() > 0 {
        lemma_select_all(items.drop_last(), keep);
    }
}

/// Where the mask drops only items that fail `pred`, the items that meet
/// `pred` are the same before and after the selection, in the same order.
pub proof fn lemma_select_keeps<T>(items: Seq<T>, keep: Seq<bool>, pred: spec_fn(T) -> bool)
    requires
        forall|i: int| 0 <= i < items.len() && !keep[i] ==> !pred(#[trigger] items[i]),
    ensures
        select(items, keep).filter(pred) == items.filter(pred),
    decreases items.len(),
{
    reveal(Seq::filter);
    if items.len() > 0 {
        let front = items.drop_last();
        assert forall|i: int| 0 <= i < front.len() && !keep[i] implies !pred(
            #[trigger] front[i],
        ) by {}
        lemma_select_keeps(front, keep, pred);
        if keep[items.len() - 1] {
            let rest = select(front, keep);
            assert(rest.push(items.last()).drop_last() == rest);
        }
    }
}

/// Two sequences of one length keep the same number of items under one
/// mask.
pub proof fn lemma_select_len<A, B>(a: Seq<A>, b: Seq<B>, keep: Seq<bool>)
    requires
        a.len() == b.len(),
    ensures
        select(a, keep).len() == select(b, keep).len(),
    decreases a.len(),
{
    if a.len() > 0 {
        lemma_select_len(a.drop_last(), b.drop_last(), keep);
    }
}

} // verus!
