//! The joining of lines: parse, decide, filter, write back.

use vstd::prelude::*;
use vstd::string::{to_string_from_display_ensures, StringExecFns};
use pulldown_cmark::Event;
use crate::markdown::{
    event_kind, parse_events, parsed, serialized, token_of, write_markdown, Extensions,
};
use crate::retain::{retain_by_mask, retention, retention_mask};
use crate::select::select;
use crate::token::{kinds, Kind, Token};

verus! {

/// Why a markdown text could not be joined.
#[derive(Debug, PartialEq, Eq)]
pub enum JoinError {
    /// The events that were left could not be written back as markdown.
    /// Holds the error of the serializer.
    Serialization(core::fmt::Error),
}

impl JoinError {
    /// The text of the error for a reader: what failed, then the
    /// serializer's error as it displays itself.
    pub fn message(&self) -> (text: String)
        ensures
            self matches JoinError::Serialization(err) && exists|detail: String|
                #[trigger] to_string_from_display_ensures::<core::fmt::Error>(&err, detail)
                    && text@ == "Markdown serialization failed: "@ + detail@,
    {
        match self {
            JoinError::Serialization(err) => {
                let detail = err.to_string();
                String::from_str("Markdown serialization failed: ").concat(detail.as_str())
            },
        }
    }
}

/// The extensions with which a text is parsed before it is joined: tables,
/// footnotes, strikethrough and task lists.
pub open spec fn joining_extensions() -> Extensions {
    Extensions { tables: true, footnotes: true, strikethrough: true, tasklists: true }
}

/// What the joining rule reads of each of `events`.
pub open spec fn event_kinds(events: Seq<Event<'_>>) -> Seq<Kind> {
    Seq::new(events.len(), |i: int| event_kind(events[i]))
}

/// The events of `events` that stay: all but the soft breaks between two
/// runs of CJK text.
pub open spec fn joined_events(events: Seq<Event<'_>>) -> Seq<Event<'_>> {
    select(events, retention(event_kinds(events)))
}

/// The joined form of `markdown`: its events without the soft breaks
/// between CJK text, written back as markdown, or the error of the
/// serializer where they cannot be written.
pub open spec fn joined_markdown(markdown: Seq<char>) -> Result<Seq<char>, core::fmt::Error> {
    serialized(joined_events(parsed(markdown, joining_extensions())))
}

/// Reads each of `events` as a token.
pub fn tokens_of<'e>(events: &'e [Event<'_>]) -> (tokens: Vec<Token<'e>>)
    ensures
        kinds(tokens@) == event_kinds(events@),
{
    let mut tokens: Vec<Token<'e>> = Vec::with_capacity(events.len());
    let mut index: usize = 0;
    while index < events.len()
        invariant
            index <= events@.len(),
            tokens@.len() == index,
            forall|i: int| 0 <= i < index ==> tokens@[i]@ == event_kind(events@[i]),
        decreases events@.len() - index,
    {
        tokens.push(token_of(&events[index]));
        index += 1;
    }
    tokens
}

/// Drops from `events` every soft break that stands between two runs of CJK
/// text. All other events stay, in their order.
pub fn join_events<'a>(events: Vec<Event<'a>>) -> (kept: Vec<Event<'a>>)
    ensures
        kept@ == joined_events(events@),
{
    let keep = {
        let tokens = tokens_of(events.as_slice());
        retention_mask(tokens.as_slice())
    };
    retain_by_mask(events, keep.as_slice())
}

/// Turns what the serializer returned into the result of the join: the
/// text it wrote, or its error as an error of the join.
pub fn serialization_outcome(written: Result<String, core::fmt::Error>) -> (out: Result<
    String,
    JoinError,
>)
    ensures
        written matches Ok(text) ==> (out matches Ok(joined) && joined == text),
        written matches Err(err) ==> (out matches Err(JoinError::Serialization(failure))
            && failure == err),
{
    match written {
        Ok(text) => Ok(text),
        Err(err) => Err(JoinError::Serialization(err)),
    }
}

/// Removes from `markdown` the line breaks between two runs of CJK text.
///
/// The text is parsed into events, every soft break whose nearest text
/// before it ends with a CJK character and whose nearest text after it
/// starts with one is dropped, and the events that are left are written
/// back as markdown.
pub fn join_cjk_spacing(markdown: &str) -> (out: Result<String, JoinError>)
    ensures
        out matches Ok(text) ==> (joined_markdown(markdown@) matches Ok(joined) && joined
            == text@),
        out matches Err(JoinError::Serialization(err)) ==> (joined_markdown(markdown@) matches Err(
            failure,
        ) && failure == err),
{
    let extensions = Extensions {
        tables: true,
        footnotes: true,
        strikethrough: true,
        tasklists: true,
    };
    let events = parse_events(markdown, extensions);
    let kept = join_events(events);
    serialization_outcome(write_markdown(kept, markdown))
}

} // verus!
