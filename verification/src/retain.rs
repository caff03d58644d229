//! Which events stay: the retention mask, and the filter that applies it.

use vstd::prelude::*;
use crate::cjk::{cjk_at_end, cjk_at_start, ends_with_cjk, starts_with_cjk};
use crate::select::select;
use crate::token::{find_next_text, find_prev_text, kinds, next_text, prev_text, Kind, Token};

verus! {

/// Whether position `i` holds a soft break that is dropped: the text
/// nearest before it ends with a CJK character, and the text nearest after
/// it starts with one.
pub open spec fn joins_lines(tokens: Seq<Kind>, i: int) -> bool {
    &&& 0 <= i < tokens.len()
    &&& tokens[i] is SoftBreak
    &&& cjk_at_end(prev_text(tokens, i))
    &&& cjk_at_start(next_text(tokens, i + 1))
}

/// The retention mask of `tokens`: one entry for each token, `false` for
/// exactly the soft breaks that are dropped.
pub open spec fn retention(tokens: Seq<Kind>) -> Seq<bool> {
    Seq::new(tokens.len(), |i: int| !joins_lines(tokens, i))
}

/// Computes the retention mask of `tokens`. Every decision is taken
/// against the positions of the sequence as it was given.
pub fn retention_mask(tokens: &[Token<'_>]) -> (keep: Vec<bool>)
    ensures
        keep@ == retention(kinds(tokens@)),
        keep@.len() == tokens@.len(),
        forall|i: int|
            0 <= i < tokens@.len() ==> (#[trigger] keep@[i] <==> !(kinds(tokens@)[i] is SoftBreak
                && cjk_at_end(prev_text(kinds(tokens@), i)) && cjk_at_start(
                next_text(kinds(tokens@), i + 1),
            ))),
{
    let mut keep: Vec<bool> = Vec::with_capacity(tokens.len());
    let mut index: usize = 0;
    while index < tokens.len()
        invariant
            index <= tokens@.len(),
            keep@.len() == index,
            forall|i: int| 0 <= i < index ==> keep@[i] == !joins_lines(kinds(tokens@), i),
        decreases tokens@.len() - index,
    {
        let stays = match tokens[index] {
            Token::SoftBreak => {
                let prev = find_prev_text(tokens, index);
                let next = find_next_text(tokens, index + 1);
                !(ends_with_cjk(prev) && starts_with_cjk(next))
            },
            _ => true,
        };
        keep.push(stays);
        index += 1;
    }
    keep
}

/// Keeps the items whose entry in `keep` is `true` and drops the others,
/// without changing the order of those that stay.
pub fn retain_by_mask<T>(items: Vec<T>, keep: &[bool]) -> (kept: Vec<T>)
    requires
        items@.len() <= keep@.len(),
    ensures
        kept@ == select(items@, keep@),
{
    let ghost all = items@;
    let mut kept: Vec<T> = Vec::new();
    let mut index: usize = 0;
    for item in iter: items
        invariant
            iter.seq() == all,
            index == iter.index(),
            all.len() <= keep@.len(),
            kept@ == select(all.take(index as int), keep@),
    {
        proof {
            assert(all.take(index + 1).drop_last() == all.take(index as int));
        }
        if keep[index] {
            kept.push(item);
        }
        index += 1;
    }
    proof {
        assert(all.take(index as int) == all);
    }
    kept
}

} // verus!
