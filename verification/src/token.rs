//! The events of a markdown document as the joining rule reads them, and
//! the search for the text nearest to a position.

use vstd::prelude::*;

verus! {

/// One markdown event as the library holds it: which kind of event it is,
/// and the text or flag that it carries. Of the tag of a start or an end
/// nothing is kept, since nothing is read of it.
#[derive(Clone, Copy, Debug, PartialEq, Eq)]
pub enum Token<'a> {
    /// The start of a container: a paragraph, a list item, a link and so on.
    Start,
    /// The end of a container.
    End,
    /// A run of text, with its content.
    Text(&'a str),
    /// Inline code, with its content.
    Code(&'a str),
    /// A piece of HTML, with its content.
    Html(&'a str),
    /// A reference to a footnote, with the footnote's label.
    FootnoteReference(&'a str),
    /// A line break that renders as a space.
    SoftBreak,
    /// A line break that renders as one.
    HardBreak,
    /// A horizontal rule.
    Rule,
    /// The box of a task list item, and whether it is checked.
    TaskListMarker(bool),
}

/// The mathematical value of a [`Token`].
pub enum Kind {
    /// The start of a container.
    Start,
    /// The end of a container.
    End,
    /// A run of text, with its characters.
    Text(Seq<char>),
    /// Inline code, with its characters.
    Code(Seq<char>),
    /// A piece of HTML, with its characters.
    Html(Seq<char>),
    /// A reference to a footnote, with the characters of the label.
    FootnoteReference(Seq<char>),
    /// A line break that renders as a space.
    SoftBreak,
    /// A line break that renders as one.
    HardBreak,
    /// A horizontal rule.
    Rule,
    /// The box of a task list item, and whether it is checked.
    TaskListMarker(bool),
}

impl<'a> View for Token<'a> {
    type V = Kind;

    open spec fn view(&self) -> Kind {
        match *self {
            Token::Start => Kind::Start,
            Token::End => Kind::End,
            Token::Text(text) => Kind::Text(text@),
            Token::Code(text) => Kind::Code(text@),
            Token::Html(text) => Kind::Html(text@),
            Token::FootnoteReference(label) => Kind::FootnoteReference(label@),
            Token::SoftBreak => Kind::SoftBreak,
            Token::HardBreak => Kind::HardBreak,
            Token::Rule => Kind::Rule,
            Token::TaskListMarker(checked) => Kind::TaskListMarker(checked),
        }
    }
}

/// The values of a sequence of tokens, one for one.
pub open spec fn kinds(tokens: Seq<Token<'_>>) -> Seq<Kind> {
    Seq::new(tokens.len(), |i: int| tokens[i]@)
}

/// Whether none of the positions `lo <= k < hi` that exist in `tokens`
/// holds a text.
pub open spec fn no_text_within(tokens: Seq<Kind>, lo: int, hi: int) -> bool {
    forall|k: int| lo <= k < hi && 0 <= k < tokens.len() ==> !(#[trigger] tokens[k] is Text)
}

/// The content of the text nearest to `before` among the positions below
/// it, or the empty text if there is none.
pub open spec fn prev_text(tokens: Seq<Kind>, before: int) -> Seq<char>
    decreases before,
{
    if before <= 0 {
        Seq::empty()
    } else if before > tokens.len() {
        prev_text(tokens, tokens.len() as int)
    } else {
        match tokens[before - 1] {
            Kind::Text(text) => text,
            _ => prev_text(tokens, before - 1),
        }
    }
}

/// The content of the text nearest to `from` among the positions at or
/// above it, or the empty text if there is none.
pub open spec fn next_text(tokens: Seq<Kind>, from: int) -> Seq<char>
    decreases tokens.len() - from,
{
    if from >= tokens.len() {
        Seq::empty()
    } else if from < 0 {
        next_text(tokens, 0)
    } else {
        match tokens[from] {
            Kind::Text(text) => text,
            _ => next_text(tokens, from + 1),
        }
    }
}

/// Whether `text` is the content of the last text below `before`: either
/// some position `j` below `before` holds it and no text stands between `j`
/// and `before`, or no text stands below `before` and `text` is empty.
pub open spec fn is_nearest_text_before(tokens: Seq<Kind>, before: int, text: Seq<char>) -> bool {
    ||| exists|j: int|
        0 <= j < before && j < tokens.len() && #[trigger] tokens[j] == Kind::Text(text)
            && no_text_within(tokens, j + 1, before)
    ||| no_text_within(tokens, 0, before) && text == Seq::<char>::empty()
}

/// Whether `text` is the content of the first text at or above `from`:
/// either some position `j` at or above `from` holds it and no text stands
/// between `from` and `j`, or no text stands at or above `from` and `text`
/// is empty.
pub open spec fn is_nearest_text_from(tokens: Seq<Kind>, from: int, text: Seq<char>) -> bool {
    ||| exists|j: int|
        from <= j && 0 <= j < tokens.len() && #[trigger] tokens[j] == Kind::Text(text)
            && no_text_within(tokens, from, j)
    ||| no_text_within(tokens, from, tokens.len() as int) && text == Seq::<char>::empty()
}

/// `prev_text` is the content of the last text below `before`.
pub proof fn lemma_prev_text_is_nearest(tokens: Seq<Kind>, before: int)
    ensures
        is_nearest_text_before(tokens, before, prev_text(tokens, before)),
    decreases before,
{
    if before <= 0 {
    } else if before > tokens.len() {
        lemma_prev_text_is_nearest(tokens, tokens.len() as int);
    } else if !(tokens[before - 1] is Text) {
        lemma_prev_text_is_nearest(tokens, before - 1);
    }
}

/// `next_text` is the content of the first text at or above `from`.
pub proof fn lemma_next_text_is_nearest(tokens: Seq<Kind>, from: int)
    ensures
        is_nearest_text_from(tokens, from, next_text(tokens, from)),
    decreases tokens.len() - from,
{
    if from >= tokens.len() {
    } else if from < 0 {
        lemma_next_text_is_nearest(tokens, 0);
    } else if !(tokens[from] is Text) {
        lemma_next_text_is_nearest(tokens, from + 1);
    }
}

/// Finds the text nearest to position `start` among the tokens before it,
/// passing over everything that is not a text: inline code, HTML and
/// footnote references too, whatever they carry. Without such a text the
/// result is empty.
pub fn find_prev_text<'a>(tokens: &[Token<'a>], start: usize) -> (text: &'a str)
    ensures
        text@ == prev_text(kinds(tokens@), start as int),
        is_nearest_text_before(kinds(tokens@), start as int, text@),
{
    proof {
        lemma_prev_text_is_nearest(kinds(tokens@), start as int);
    }
    let mut i: usize = if start <= tokens.len() {
        start
    } else {
        tokens.len()
    };
    while i > 0
        invariant
            i <= tokens@.len(),
            prev_text(kinds(tokens@), start as int) == prev_text(kinds(tokens@), i as int),
            is_nearest_text_before(
                kinds(tokens@),
                start as int,
                prev_text(kinds(tokens@), start as int),
            ),
        decreases i,
    {
        i -= 1;
        match tokens[i] {
            Token::Text(text) => {
                return text;
            },
            _ => {},
        }
    }
    proof {
        reveal_strlit("");
        assert(""@ == Seq::<char>::empty());
    }
    ""
}

/// Finds the text nearest to position `start` among the tokens at or after
/// it, passing over everything that is not a text: inline code, HTML and
/// footnote references too, whatever they carry. Without such a text the
/// result is empty.
pub fn find_next_text<'a>(tokens: &[Token<'a>], start: usize) -> (text: &'a str)
    ensures
        text@ == next_text(kinds(tokens@), start as int),
        is_nearest_text_from(kinds(tokens@), start as int, text@),
{
    proof {
        lemma_next_text_is_nearest(kinds(tokens@), start as int);
    }
    let mut i: usize = start;
    while i < tokens.len()
        invariant
            next_text(kinds(tokens@), start as int) == next_text(kinds(tokens@), i as int),
            is_nearest_text_from(
                kinds(tokens@),
                start as int,
                next_text(kinds(tokens@), start as int),
            ),
        decreases tokens@.len() - i,
    {
        match tokens[i] {
            Token::Text(text) => {
                return text;
            },
            _ => {},
        }
        i += 1;
    }
    proof {
        reveal_strlit("");
    }
    ""
}

} // verus!
