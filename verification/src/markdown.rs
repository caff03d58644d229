//! The markdown parser and serializer that the library calls, and what it
//! takes on trust about them.
//!
//! Parsing is done by `pulldown_cmark`, writing markdown back by
//! `pulldown_cmark_to_cmark`. Their events pass through the library
//! unopened: an [`Event`] is read only by [`token_of`], which mirrors it
//! variant for variant, and every other function works on the [`Token`]s
//! it yields or moves whole events around.

use vstd::prelude::*;
use pulldown_cmark::{Event, Options, Parser};
use pulldown_cmark_to_cmark::cmark;
use crate::token::{Kind, Token};

verus! {

/// A markdown event of `pulldown_cmark`, opaque to the verifier.
#[verifier::external_type_specification]
#[verifier::external_body]
pub struct ExEvent<'a>(Event<'a>);

/// The error of `core::fmt`, which the serializer hands on from the buffer
/// it writes to.
#[verifier::external_type_specification]
#[verifier::external_body]
pub struct ExFmtError(core::fmt::Error);

/// The extensions to CommonMark that the parser is asked to recognise.
#[derive(Clone, Copy, Debug, PartialEq, Eq)]
pub struct Extensions {
    pub tables: bool,
    pub footnotes: bool,
    pub strikethrough: bool,
    pub tasklists: bool,
}

/// An event as the library holds it: the variant of `pulldown_cmark::Event`
/// that it is, and the text or flag that it carries.
pub uninterp spec fn event_kind(event: Event<'_>) -> Kind;

/// The events that `pulldown_cmark` parses `markdown` into with the given
/// extensions enabled, in reading order.
pub uninterp spec fn parsed(markdown: Seq<char>, extensions: Extensions) -> Seq<Event<'static>>;

/// The markdown that `pulldown_cmark_to_cmark` writes for `events`, or the
/// error that it reports.
pub uninterp spec fn serialized(events: Seq<Event<'_>>) -> Result<Seq<char>, core::fmt::Error>;

/// Reads one event. Matches on the ten variants of
/// `pulldown_cmark::Event`, one arm each, and hands on the text or flag of
/// the variant; the tag of a `Start` or an `End` is left behind. The
/// contract only names the outcome.
#[verifier::external_body]
pub(crate) fn token_of<'e>(event: &'e Event<'_>) -> (token: Token<'e>)
    ensures
        token@ == event_kind(*event),
{
    match event {
        Event::Start(_) => Token::Start,
        Event::End(_) => Token::End,
        Event::Text(text) => Token::Text(text),
        Event::Code(text) => Token::Code(text),
        Event::Html(text) => Token::Html(text),
        Event::FootnoteReference(label) => Token::FootnoteReference(label),
        Event::SoftBreak => Token::SoftBreak,
        Event::HardBreak => Token::HardBreak,
        Event::Rule => Token::Rule,
        Event::TaskListMarker(checked) => Token::TaskListMarker(*checked),
    }
}

/// Calls `pulldown_cmark::Parser::new_ext` on `markdown`, with the options
/// set as `extensions` says, and collects the events that the parser
/// yields. The contract names the result: parsing depends on the text and
/// the options alone.
#[verifier::external_body]
pub(crate) fn parse_events<'a>(markdown: &'a str, extensions: Extensions) -> (events: Vec<
    Event<'a>,
>)
    ensures
        events@ == parsed(markdown@, extensions),
{
    let mut options = Options::empty();
    options.set(Options::ENABLE_TABLES, extensions.tables);
    options.set(Options::ENABLE_FOOTNOTES, extensions.footnotes);
    options.set(Options::ENABLE_STRIKETHROUGH, extensions.strikethrough);
    options.set(Options::ENABLE_TASKLISTS, extensions.tasklists);
    Parser::new_ext(markdown, options).collect()
}

/// Calls `pulldown_cmark_to_cmark::cmark` on `events` with a fresh `String`
/// as the buffer, and returns the buffer, or the error that `cmark`
/// returned. The buffer is allocated as large as `source`. The contract
/// names the result: what is written depends on the events alone.
#[verifier::external_body]
pub(crate) fn write_markdown(events: Vec<Event<'_>>, source: &str) -> (out: Result<
    String,
    core::fmt::Error,
>)
    ensures
        out matches Ok(text) ==> (serialized(events@) matches Ok(written) && written == text@),
        out matches Err(err) ==> (serialized(events@) matches Err(failure) && failure == err),
{
    let mut text = String::with_capacity(source.len());
    match cmark(events.into_iter(), &mut text) {
        Ok(_) => Ok(text),
        Err(err) => Err(err),
    }
}

} // verus!
