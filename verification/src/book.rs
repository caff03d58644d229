//! The book of `mdbook`, and what the library takes on trust about it.

use vstd::prelude::*;
use mdbook::book::{Book, BookItem};
use crate::preprocessor::{rewritten, FixCJKSpacing};

verus! {

/// A book of `mdbook`: a tree of chapters, separators and part titles,
/// opaque to the verifier.
#[verifier::external_type_specification]
#[verifier::external_body]
pub struct ExBook(Book);

/// The contents of the chapters of `book`, nested chapters included, in
/// the order in which `Book::for_each_mut` comes to them.
pub uninterp spec fn chapter_texts(book: Book) -> Seq<Seq<char>>;

/// The book without what its chapters say: `book` with the content of
/// every chapter, nested chapters included, replaced by the empty text.
/// The items, their order and nesting, the separators and part titles, and
/// each chapter's name, number, paths and parent names are those of `book`.
pub uninterp spec fn outline(book: Book) -> Book;

/// Calls `mdbook::book::Book::for_each_mut` with a closure that hands the
/// content of each chapter to [`FixCJKSpacing::rewrite_chapter`] and passes
/// over the items that are no chapter. `for_each_mut` applies the closure
/// once to every item of the book, to the items nested in a chapter before
/// the chapter itself, and changes nothing itself; so every chapter's
/// content is replaced by its rewritten form and all else stays as it
/// was, which is what the contract says.
#[verifier::external_body]
pub(crate) fn rewrite_chapters(book: &mut Book, preprocessor: &FixCJKSpacing)
    ensures
        chapter_texts(*final(book)) == chapter_texts(*old(book)).map_values(
            |text: Seq<char>| rewritten(text),
        ),
        outline(*final(book)) == outline(*old(book)),
{
    book.for_each_mut(
        |item: &mut BookItem|
            {
                if let BookItem::Chapter(chapter) = item {
                    preprocessor.rewrite_chapter(&mut chapter.content);
                }
            },
    );
}

} // verus!
