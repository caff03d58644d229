//! What holds of the joining rule for every sequence of events.

use vstd::prelude::*;
use pulldown_cmark::Event;
use crate::cjk::{cjk_at_end, cjk_at_start};
use crate::join::{event_kinds, joined_events, joined_markdown, joining_extensions};
use crate::markdown::{event_kind, parsed, serialized};
use crate::retain::{joins_lines, retention};
use crate::select::{
    lemma_select_all, lemma_select_keeps, lemma_select_len, lemma_select_origin,
    lemma_select_position, lemma_select_prefix, lemma_select_step, lemma_select_whole, select,
    select_upto,
};
use crate::token::{next_text, prev_text, Kind};

verus! {

/// Whether `keep` keeps every text of `tokens`.
pub open spec fn keeps_texts(tokens: Seq<Kind>, keep: Seq<bool>) -> bool {
    forall|j: int| 0 <= j < tokens.len() && #[trigger] tokens[j] is Text ==> keep[j]
}

/// The nearest text before a position depends only on the tokens before it.
pub proof fn lemma_prev_text_of_prefix(a: Seq<Kind>, b: Seq<Kind>, before: int)
    requires
        0 <= before <= a.len(),
        before <= b.len(),
        forall|k: int| 0 <= k < before ==> a[k] == b[k],
    ensures
        prev_text(a, before) == prev_text(b, before),
    decreases before,
{
    if before > 0 {
        lemma_prev_text_of_prefix(a, b, before - 1);
    }
}

/// Dropping tokens that are no text does not change the nearest text
/// before a position: seen from the end of what is selected from the first
/// `n` tokens it is the same as seen from `n` in the whole.
pub proof fn lemma_prev_text_survives(tokens: Seq<Kind>, keep: Seq<bool>, n: int)
    requires
        0 <= n <= tokens.len(),
        keeps_texts(tokens, keep),
    ensures
        prev_text(select_upto(tokens, keep, n), select_upto(tokens, keep, n).len() as int)
            == prev_text(tokens, n),
    decreases n,
{
    if n > 0 {
        lemma_prev_text_survives(tokens, keep, n - 1);
        lemma_select_step(tokens, keep, n - 1);
        if keep[n - 1] {
            let before = select_upto(tokens, keep, n - 1);
            lemma_prev_text_of_prefix(before.push(tokens[n - 1]), before, before.len() as int);
        }
    }
}

/// Dropping tokens that are no text does not change the nearest text at or
/// after a position.
pub proof fn lemma_next_text_survives(tokens: Seq<Kind>, keep: Seq<bool>, i: int)
    requires
        0 <= i <= tokens.len(),
        keeps_texts(tokens, keep),
    ensures
        next_text(select(tokens, keep), select_upto(tokens, keep, i).len() as int) == next_text(
            tokens,
            i,
        ),
    decreases tokens.len() - i,
{
    if i == tokens.len() {
        lemma_select_whole(tokens, keep);
    } else {
        lemma_next_text_survives(tokens, keep, i + 1);
        lemma_select_step(tokens, keep, i);
        if keep[i] {
            lemma_select_position(tokens, keep, i);
        }
    }
}

/// A soft break between two texts of which neither touches it with a CJK
/// character stays.
pub proof fn lemma_break_between_other_text_stays(tokens: Seq<Kind>, i: int)
    requires
        0 <= i < tokens.len(),
        tokens[i] is SoftBreak,
        !cjk_at_end(prev_text(tokens, i)),
        !cjk_at_start(next_text(tokens, i + 1)),
    ensures
        retention(tokens)[i],
{
}

/// A soft break with a CJK character on exactly one of its sides stays.
pub proof fn lemma_break_at_mixed_boundary_stays(tokens: Seq<Kind>, i: int)
    requires
        0 <= i < tokens.len(),
        tokens[i] is SoftBreak,
        cjk_at_end(prev_text(tokens, i)) != cjk_at_start(next_text(tokens, i + 1)),
    ensures
        retention(tokens)[i],
{
}

/// A soft break leaves exactly when the nearest text before it ends with a
/// CJK character and the nearest text after it starts with one.
pub proof fn lemma_break_leaves_iff_cjk_on_both_sides(tokens: Seq<Kind>, i: int)
    requires
        0 <= i < tokens.len(),
        tokens[i] is SoftBreak,
    ensures
        !retention(tokens)[i] <==> cjk_at_end(prev_text(tokens, i)) && cjk_at_start(
            next_text(tokens, i + 1),
        ),
{
}

/// Nothing but soft breaks ever leaves: every other token stays, and the
/// tokens that are no soft break are the same before and after, in the
/// same order. The content of a code block is text, so it is among them.
pub proof fn lemma_only_soft_breaks_leave(tokens: Seq<Kind>)
    ensures
        forall|i: int|
            0 <= i < tokens.len() && !(#[trigger] tokens[i] is SoftBreak) ==> retention(tokens)[i],
        select(tokens, retention(tokens)).filter(|k: Kind| !(k is SoftBreak)) == tokens.filter(
            |k: Kind| !(k is SoftBreak),
        ),
{
    lemma_select_keeps(tokens, retention(tokens), |k: Kind| !(k is SoftBreak));
}

/// After one pass no soft break is left that a second pass would drop.
pub proof fn lemma_retention_settles(tokens: Seq<Kind>)
    ensures
        forall|p: int|
            0 <= p < select(tokens, retention(tokens)).len() ==> #[trigger] retention(
                select(tokens, retention(tokens)),
            )[p],
        select(select(tokens, retention(tokens)), retention(select(tokens, retention(tokens))))
            == select(tokens, retention(tokens)),
{
    let keep = retention(tokens);
    let kept = select(tokens, keep);
    lemma_select_whole(tokens, keep);
    assert forall|p: int| 0 <= p < kept.len() implies #[trigger] retention(kept)[p] by {
        let i = lemma_select_origin(tokens, keep, tokens.len() as int, p);
        lemma_select_position(tokens, keep, i);
        lemma_prev_text_survives(tokens, keep, i);
        lemma_select_prefix(tokens, keep, i, tokens.len() as int);
        lemma_prev_text_of_prefix(kept, select_upto(tokens, keep, i), p);
        lemma_next_text_survives(tokens, keep, i + 1);
    }
    lemma_select_all(kept, retention(kept));
}

/// Reading the events and then selecting gives what selecting and then
/// reading gives.
pub proof fn lemma_event_kinds_of_selection(events: Seq<Event<'_>>, keep: Seq<bool>)
    ensures
        event_kinds(select(events, keep)) == select(event_kinds(events), keep),
    decreases events.len(),
{
    if events.len() > 0 {
        lemma_event_kinds_of_selection(events.drop_last(), keep);
        assert(event_kinds(events).drop_last() == event_kinds(events.drop_last()));
    }
}

/// Joining events that were joined already changes nothing.
pub proof fn lemma_joined_events_settle(events: Seq<Event<'_>>)
    ensures
        joined_events(joined_events(events)) == joined_events(events),
{
    let tokens = event_kinds(events);
    let keep = retention(tokens);
    let kept = joined_events(events);
    lemma_event_kinds_of_selection(events, keep);
    lemma_retention_settles(tokens);
    lemma_select_len(events, tokens, keep);
    lemma_select_all(kept, retention(event_kinds(kept)));
}

/// Joining a text twice gives what joining it once gives, provided that
/// the joined text parses back into the events it was written from.
pub proof fn lemma_join_twice_when_text_parses_back(markdown: Seq<char>, joined: Seq<char>)
    requires
        joined_markdown(markdown) matches Ok(text) && text == joined,
        parsed(joined, joining_extensions()) == joined_events(
            parsed(markdown, joining_extensions()),
        ),
    ensures
        joined_markdown(joined) matches Ok(text) && text == joined,
{
    lemma_joined_events_settle(parsed(markdown, joining_extensions()));
}

/// Joining a joined text again gives that text, provided that the rule
/// finds no break to drop among the events that the text parses into, and
/// that these events are written back as the text itself.
pub proof fn lemma_join_twice_when_text_is_settled(joined: Seq<char>)
    requires
        joined_events(parsed(joined, joining_extensions())) == parsed(
            joined,
            joining_extensions(),
        ),
        serialized(parsed(joined, joining_extensions())) matches Ok(text) && text == joined,
    ensures
        joined_markdown(joined) matches Ok(text) && text == joined,
{
}

/// No event but a soft break is touched by the join: the events that are
/// no soft break are the same before and after, in the same order.
pub proof fn lemma_join_keeps_other_events(events: Seq<Event<'_>>)
    ensures
        joined_events(events).filter(|e: Event<'_>| !(event_kind(e) is SoftBreak))
            == events.filter(|e: Event<'_>| !(event_kind(e) is SoftBreak)),
{
    let keep = retention(event_kinds(events));
    assert forall|i: int| 0 <= i < events.len() && !keep[i] implies event_kind(
        #[trigger] events[i],
    ) is SoftBreak by {}
    lemma_select_keeps(events, keep, |e: Event<'_>| !(event_kind(e) is SoftBreak));
}

} // verus!
