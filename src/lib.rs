use vstd::prelude::*;
use mdbook::book::Book;
use mdbook::errors::Error;
use mdbook::preprocess::PreprocessorContext;
use crate::blocks::rendered;
use crate::book::{book_outline, chapter_contents, process_chapters};

pub mod assets;
pub mod blocks;
pub mod book;
pub mod laws;
pub mod text;

verus! {

/// A book preprocessor that turns question and answer blocks into
/// collapsible widgets.
pub struct HideContent;

impl HideContent {
    pub fn new() -> (r: HideContent) {
        HideContent
    }

    /// The name under which the preprocessor is known to mdbook.
    pub fn name(&self) -> (r: &'static str)
        ensures
            r@ == "hide-content"@,
    {
        "hide-content"
    }

    /// Processes every chapter of `book`: the shared assets are put in front
    /// of its content and every block in it is replaced by a widget. Nothing
    /// else in the book changes, and a book without chapters comes back as it
    /// was. The context is not read, and no error comes.
    pub fn run(&self, _ctx: &PreprocessorContext, book: Book) -> (r: Result<Book, Error>)
        ensures
            r matches Ok(b) && chapter_contents(b) == chapter_contents(book).map_values(
                |c: Seq<char>| rendered(c),
            ) && book_outline(b) == book_outline(book) && (chapter_contents(book).len() == 0
                ==> b == book),
    {
        let mut book = book;
        process_chapters(&mut book);
        Ok(book)
    }
}

} // verus!
