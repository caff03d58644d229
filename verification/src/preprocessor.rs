//! The joining of lines as a preprocessor of book chapters.

use vstd::prelude::*;
use mdbook::book::Book;
use crate::book::{chapter_texts, outline, rewrite_chapters};
use crate::join::{join_cjk_spacing, joined_markdown};

verus! {

/// A preprocessor that joins the lines of CJK text in each chapter of a
/// book.
#[derive(Clone, Copy, Debug, PartialEq, Eq)]
pub struct FixCJKSpacing;

/// The content of a chapter after the preprocessor has seen it: its joined
/// form, or the content itself where it cannot be joined.
pub open spec fn rewritten(content: Seq<char>) -> Seq<char> {
    match joined_markdown(content) {
        Ok(text) => text,
        Err(_) => content,
    }
}

impl FixCJKSpacing {
    /// The preprocessor. It has no settings.
    pub fn new() -> (preprocessor: Self)
        ensures
            preprocessor == FixCJKSpacing,
    {
        FixCJKSpacing
    }

    /// The name under which the preprocessor is known to the book builder.
    pub fn name(&self) -> (name: &'static str)
        ensures
            name@ == "fix-cjk-spacing"@,
    {
        "fix-cjk-spacing"
    }

    /// Whether the preprocessor can work for a renderer: it can for every
    /// one, since it only rewrites markdown.
    pub fn supports_renderer(&self, _renderer: &str) -> (supported: bool)
        ensures
            supported,
    {
        true
    }

    /// Joins the lines of one chapter in place. A chapter that cannot be
    /// joined is left as it is, so that one failure does not spoil the
    /// book.
    pub fn rewrite_chapter(&self, content: &mut String)
        ensures
            final(content)@ == rewritten(old(content)@),
            joined_markdown(old(content)@) is Err ==> *final(content) == *old(content),
    {
        let joined = join_cjk_spacing(content.as_str());
        match joined {
            Ok(text) => {
                *content = text;
            },
            Err(_) => {},
        }
    }

    /// Joins the lines of every chapter of `book`, nested chapters
    /// included. Nothing but the contents of the chapters changes: the
    /// items, their order and nesting, names, paths and numbers are those
    /// of `book`.
    pub fn run(&self, book: Book) -> (out: Book)
        ensures
            chapter_texts(out) == chapter_texts(book).map_values(|text: Seq<char>| rewritten(text)),
            outline(out) == outline(book),
    {
        let mut book = book;
        rewrite_chapters(&mut book, self);
        book
    }
}

} // verus!
