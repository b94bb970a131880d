//! The bookmarks view: moving through saved bookmarks, picking one, deleting one.

use vstd::prelude::*;

use crate::app::settings::Bookmark;
use crate::app::state::AppState;
use crate::tui::ui::selection::{next_row, previous_row, select_next, select_previous, ListState};
use crate::utils::text::{decimal, push_decimal};

verus! {

broadcast use vstd::string::group_string_axioms;

pub struct BookmarksView {
    pub list_state: ListState,
}

/// The selection after deleting row `i` of a list that has `remaining` rows left:
/// none when the list is empty, the last row when `i` was past it, `i` otherwise.
pub open spec fn selection_after_delete(i: usize, remaining: nat) -> Option<usize> {
    if remaining == 0 {
        None
    } else if i >= remaining {
        Some((remaining - 1) as usize)
    } else {
        Some(i)
    }
}

impl BookmarksView {
    pub fn new() -> (res: Self)
        ensures
            res.list_state.selection is None,
    {
        Self { list_state: ListState::default() }
    }

    /// Selects the next bookmark, wrapping to the first.
    pub fn next(&mut self, state: &AppState)
        ensures
            state.settings.bookmarks@.len() > 0 ==> final(self).list_state.selection == Some(
                next_row(old(self).list_state.selection, state.settings.bookmarks@.len()),
            ),
            state.settings.bookmarks@.len() == 0 ==> final(self).list_state == old(self).list_state,
    {
        let len = state.settings.bookmarks.len();
        select_next(&mut self.list_state, len);
    }

    /// Selects the previous bookmark, wrapping to the last.
    pub fn previous(&mut self, state: &AppState)
        ensures
            state.settings.bookmarks@.len() > 0 ==> final(self).list_state.selection == Some(
                previous_row(old(self).list_state.selection, state.settings.bookmarks@.len()),
            ),
            state.settings.bookmarks@.len() == 0 ==> final(self).list_state == old(self).list_state,
    {
        let len = state.settings.bookmarks.len();
        select_previous(&mut self.list_state, len);
    }

    /// A copy of the selected bookmark, when the selection is on one.
    pub fn get_selected_bookmark(&self, state: &AppState) -> (res: Option<Bookmark>)
        ensures
            match res {
                Some(b) => self.list_state.selection matches Some(i) && i
                    < state.settings.bookmarks@.len() && b.spec_fields()
                    == state.settings.bookmarks@[i as int].spec_fields(),
                None => match self.list_state.selection {
                    Some(i) => i >= state.settings.bookmarks@.len(),
                    None => true,
                },
            },
    {
        match self.list_state.selected() {
            Some(i) => if i < state.settings.bookmarks.len() {
                Some(state.settings.bookmarks[i].duplicate())
            } else {
                None
            },
            None => None,
        }
    }

    /// Deletes the selected bookmark and keeps the selection on a remaining one;
    /// says whether a bookmark was deleted (so that the settings need saving).
    pub fn delete_selected(&mut self, state: &mut AppState) -> (deleted: bool)
        requires
            old(self).list_state.selection matches Some(i) ==> i < old(
                state,
            ).settings.bookmarks@.len(),
        ensures
            deleted == old(self).list_state.selection is Some,
            match old(self).list_state.selection {
                Some(i) => {
                    &&& final(state).settings.bookmarks@ == old(state).settings.bookmarks@.remove(
                        i as int,
                    )
                    &&& final(self).list_state.selection == selection_after_delete(
                        i,
                        final(state).settings.bookmarks@.len(),
                    )
                },
                None => {
                    &&& final(state).settings.bookmarks@ == old(state).settings.bookmarks@
                    &&& final(self).list_state == old(self).list_state
                },
            },
            final(state).settings.theme == old(state).settings.theme,
            final(state).settings.scrolling == old(state).settings.scrolling,
            final(state).current_view == old(state).current_view,
            final(state).should_quit == old(state).should_quit,
            final(state).current_book == old(state).current_book,
            final(state).current_charset == old(state).current_charset,
    {
        match self.list_state.selected() {
            Some(i) => {
                state.settings.bookmarks.remove(i);
                let len = state.settings.bookmarks.len();
                if len == 0 {
                    self.list_state.select(None);
                } else if i >= len {
                    self.list_state.select(Some(len - 1));
                } else {
                    self.list_state.select(Some(i));
                }
                true
            },
            None => false,
        }
    }
}

/// After a deletion, the selection, if any, is on one of the remaining bookmarks,
/// and there is one exactly when bookmarks remain.
pub proof fn law_selection_valid_after_delete(i: usize, remaining: nat)
    requires
        remaining <= usize::MAX,
    ensures
        selection_after_delete(i, remaining) is Some <==> remaining > 0,
        selection_after_delete(i, remaining) matches Some(j) ==> j < remaining,
{
}

/// The view's title: how many bookmarks are saved.
pub open spec fn bookmarks_title(count: nat) -> Seq<char> {
    "Bookmarks - "@ + decimal(count) + " saved"@
}

/// A bookmark's line in the list: its title, its chapter counted from one, and its
/// scroll offset.
pub open spec fn bookmark_label(bookmark: &Bookmark) -> Seq<char> {
    bookmark.title@ + " - Ch:"@ + decimal((bookmark.chapter + 1) as nat) + " Off:"@ + decimal(
        bookmark.scroll_offset as nat,
    )
}

impl BookmarksView {
    /// The title shown above the list (see `bookmarks_title`).
    pub fn title(state: &AppState) -> (title: String)
        ensures
            title@ == bookmarks_title(state.settings.bookmarks@.len()),
    {
        let mut title = String::from_str("Bookmarks - ");
        push_decimal(&mut title, state.settings.bookmarks.len());
        title.push_str(" saved");
        assert(title@ =~= bookmarks_title(state.settings.bookmarks@.len()));
        title
    }

    /// The list line for a bookmark (see `bookmark_label`).
    pub fn item_label(bookmark: &Bookmark) -> (label: String)
        requires
            bookmark.chapter < usize::MAX,
        ensures
            label@ == bookmark_label(bookmark),
    {
        let mut label = String::new();
        label.push_str(bookmark.title.as_str());
        label.push_str(" - Ch:");
        push_decimal(&mut label, bookmark.chapter + 1);
        label.push_str(" Off:");
        push_decimal(&mut label, bookmark.scroll_offset);
        assert(label@ =~= bookmark_label(bookmark));
        label
    }
}

} // verus!
