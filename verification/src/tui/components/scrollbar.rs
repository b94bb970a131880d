//! Whether the reader shows a scrollbar, and its extent and position.

use vstd::prelude::*;

use crate::app::state::AppState;
use crate::tui::ui::reader::{lines_per_page, shown_text, Reader};
use crate::utils::text::{line_count, split_lines};

verus! {

pub struct Scrollbar;

/// The scrollbar's (content length, position): shown only when the text shown for the
/// chapter has more lines than the page holds; the length is the lines beyond one page.
pub open spec fn scrollbar_extent(state: &AppState, reader: &Reader) -> Option<(usize, usize)> {
    match shown_text(state, reader.current_chapter) {
        Some(text) => {
            let total = split_lines(text).len();
            let avail = lines_per_page(reader.last_known_height);
            if total <= avail {
                None
            } else {
                Some(((total - avail) as usize, reader.scroll_offset))
            }
        },
        None => None,
    }
}

impl Scrollbar {
    /// The scrollbar's content length and position, when it is shown.
    pub fn metrics(state: &AppState, reader: &Reader) -> (res: Option<(usize, usize)>)
        ensures
            res == scrollbar_extent(state, reader),
    {
        match &state.current_book {
            Some(book) => match book.content.current_text(reader.current_chapter) {
                Some(text) => {
                    let total_lines = line_count(text);
                    let available_height = Reader::calculate_lines_per_page(reader.last_known_height);
                    if total_lines <= available_height {
                        None
                    } else {
                        Some((total_lines - available_height, reader.scroll_offset))
                    }
                },
                None => None,
            },
            None => None,
        }
    }
}

} // verus!
