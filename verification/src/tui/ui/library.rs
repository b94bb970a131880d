//! The library view's list of book files and its selection.

use vstd::prelude::*;

use crate::tui::ui::selection::{next_row, previous_row, select_next, select_previous, ListState};

verus! {

pub struct Library {
    pub list_state: ListState,
    /// The directory the books were listed from, as text.
    pub current_dir: String,
    /// The book files' paths, as text.
    pub book_files: Vec<String>,
}

impl Library {
    /// A library of `current_dir`, with no books listed yet and nothing selected.
    pub fn new(current_dir: String) -> (res: Self)
        ensures
            res.current_dir@ == current_dir@,
            res.book_files@.len() == 0,
            res.list_state.selection is None,
    {
        Self { list_state: ListState::default(), current_dir, book_files: Vec::new() }
    }

    /// Takes the books found in the directory; selects the first when there is one.
    pub fn load_books(&mut self, book_files: Vec<String>)
        ensures
            final(self).book_files@ == book_files@,
            book_files@.len() > 0 ==> final(self).list_state.selection == Some(0usize),
            book_files@.len() == 0 ==> final(self).list_state == old(self).list_state,
            final(self).current_dir == old(self).current_dir,
    {
        self.book_files = book_files;
        if self.book_files.len() > 0 {
            self.list_state.select(Some(0));
        }
    }

    /// Selects the next book, wrapping to the first.
    pub fn next(&mut self)
        ensures
            old(self).book_files@.len() > 0 ==> final(self).list_state.selection == Some(
                next_row(old(self).list_state.selection, old(self).book_files@.len()),
            ),
            old(self).book_files@.len() == 0 ==> final(self).list_state == old(self).list_state,
            final(self).book_files == old(self).book_files,
            final(self).current_dir == old(self).current_dir,
    {
        let len = self.book_files.len();
        select_next(&mut self.list_state, len);
    }

    /// Selects the previous book, wrapping to the last.
    pub fn previous(&mut self)
        ensures
            old(self).book_files@.len() > 0 ==> final(self).list_state.selection == Some(
                previous_row(old(self).list_state.selection, old(self).book_files@.len()),
            ),
            old(self).book_files@.len() == 0 ==> final(self).list_state == old(self).list_state,
            final(self).book_files == old(self).book_files,
            final(self).current_dir == old(self).current_dir,
    {
        let len = self.book_files.len();
        select_previous(&mut self.list_state, len);
    }

    /// The selected book file, when the selection is on a listed book.
    pub fn get_selected_book(&self) -> (res: Option<&String>)
        ensures
            match res {
                Some(p) => self.list_state.selection matches Some(i) && i < self.book_files@.len()
                    && *p == self.book_files@[i as int],
                None => match self.list_state.selection {
                    Some(i) => i >= self.book_files@.len(),
                    None => true,
                },
            },
    {
        match self.list_state.selected() {
            Some(i) => if i < self.book_files.len() {
                Some(&self.book_files[i])
            } else {
                None
            },
            None => None,
        }
    }
}

} // verus!
