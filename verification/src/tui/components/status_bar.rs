//! The status line under the reader: title, author and chapter position.

use vstd::prelude::*;

use crate::app::state::AppState;
use crate::tui::ui::reader::Reader;
use crate::utils::text::{decimal, push_decimal};

verus! {

broadcast use vstd::string::group_string_axioms;

pub struct StatusBar;

/// The status line for the state and the reader's chapter.
pub open spec fn status_line(state: &AppState, chapter: usize) -> Seq<char> {
    match state.current_book {
        Some(book) => book.metadata.title@ + " - "@ + book.metadata.author@ + " | "@ + if book.content.chapters@.len()
            > 1 {
            "Chapter "@ + decimal((chapter + 1) as nat) + "/"@ + decimal(
                book.content.chapters@.len(),
            )
        } else {
            "Single Chapter"@
        },
        None => "No book loaded"@,
    }
}

impl StatusBar {
    /// "title - author | Chapter i/n" ("Single Chapter" for a one-chapter book), or
    /// "No book loaded".
    pub fn status_text(state: &AppState, reader: &Reader) -> (text: String)
        requires
            state.current_book matches Some(book) && book.content.chapters@.len() > 1
                ==> reader.current_chapter < usize::MAX,
        ensures
            text@ == status_line(state, reader.current_chapter),
    {
        match &state.current_book {
            Some(book) => {
                let mut text = String::new();
                text.push_str(book.metadata.title.as_str());
                text.push_str(" - ");
                text.push_str(book.metadata.author.as_str());
                text.push_str(" | ");
                if book.content.chapter_count() > 1 {
                    text.push_str("Chapter ");
                    push_decimal(&mut text, reader.current_chapter + 1);
                    text.push_str("/");
                    push_decimal(&mut text, book.content.chapter_count());
                } else {
                    text.push_str("Single Chapter");
                }
                assert(text@ =~= status_line(state, reader.current_chapter));
                text
            },
            None => String::from_str("No book loaded"),
        }
    }
}

} // verus!
