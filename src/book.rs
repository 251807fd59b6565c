use vstd::prelude::*;
use mdbook::book::{Book, BookItem};
use mdbook::errors::Error;
use mdbook::preprocess::PreprocessorContext;
use crate::blocks::{process_chapter, rendered};

verus! {

#[verifier::external_type_specification]
#[verifier::external_body]
pub struct ExBook(Book);

#[verifier::external_type_specification]
#[verifier::external_body]
pub struct ExPreprocessorContext(PreprocessorContext);

#[verifier::external_type_specification]
#[verifier::external_body]
pub struct ExError(Error);

/// One item of a book, as `Book::for_each_mut` meets it, with every field
/// but a chapter's content: its nesting depth (0 for a top-level item), its
/// kind, and its fields as plain values. A section number is its list of
/// numbers; a path is the bytes of its file name as the system holds them.
pub enum OutlineItem {
    Chapter {
        depth: nat,
        name: Seq<char>,
        number: Option<Seq<u32>>,
        path: Option<Seq<u8>>,
        source_path: Option<Seq<u8>>,
        parent_names: Seq<Seq<char>>,
    },
    Separator { depth: nat },
    PartTitle { depth: nat, title: Seq<char> },
}

/// Everything the book holds but its chapters' contents: its items, nested
/// ones included, in the order in which `Book::for_each_mut` visits them
/// (the sub-items of a chapter before the chapter itself).
pub uninterp spec fn book_outline(b: Book) -> Seq<OutlineItem>;

/// The contents of the book's chapters, nested ones included, in the order in
/// which `Book::for_each_mut` visits them.
pub uninterp spec fn chapter_contents(b: Book) -> Seq<Seq<char>>;

/// Relies on mdbook's `Book::for_each_mut`: it hands every item of the book,
/// nested ones included, to the closure once, and changes nothing itself. The
/// closure here only replaces a chapter's content by `process_chapter` of it,
/// so the items and their other fields stay as they were, and a book without
/// chapters is not touched at all.
#[verifier::external_body]
pub(crate) fn process_chapters(book: &mut Book)
    ensures
        chapter_contents(*final(book)) == chapter_contents(*old(book)).map_values(
            |c: Seq<char>| rendered(c),
        ),
        book_outline(*final(book)) == book_outline(*old(book)),
        chapter_contents(*old(book)).len() == 0 ==> *final(book) == *old(book),
{
    book.for_each_mut(|item| {
        if let BookItem::Chapter(chapter) = item {
            chapter.content = process_chapter(&chapter.content);
        }
    });
}

} // verus!
