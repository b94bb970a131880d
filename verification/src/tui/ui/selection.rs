//! The selected row of a list, and moving it with wrap-around.

use vstd::prelude::*;

verus! {

/// Which row of a list is selected, if any.
#[derive(Debug, Clone, Copy, PartialEq, Eq, Structural)]
pub struct ListState {
    pub selection: Option<usize>,
}

impl ListState {
    pub fn selected(&self) -> (res: Option<usize>)
        ensures
            res == self.selection,
    {
        self.selection
    }

    pub fn select(&mut self, index: Option<usize>)
        ensures
            final(self).selection == index,
    {
        self.selection = index;
    }
}

impl Default for ListState {
    fn default() -> (res: Self)
        ensures
            res.selection is None,
    {
        ListState { selection: None }
    }
}

/// The row after the selected one in a non-empty list of `len` rows, wrapping from
/// the last row (or from past the end) to the first; the first row when none is selected.
pub open spec fn next_row(selection: Option<usize>, len: nat) -> usize {
    match selection {
        Some(i) => if i >= len - 1 {
            0
        } else {
            (i + 1) as usize
        },
        None => 0,
    }
}

/// The row before the selected one in a non-empty list of `len` rows, wrapping from
/// the first row to the last; the first row when none is selected.
pub open spec fn previous_row(selection: Option<usize>, len: nat) -> usize {
    match selection {
        Some(i) => if i == 0 {
            (len - 1) as usize
        } else {
            (i - 1) as usize
        },
        None => 0,
    }
}

/// The selection after moving down in a list of `len` rows (unchanged when it is empty).
pub fn select_next(state: &mut ListState, len: usize)
    ensures
        len == 0 ==> final(state).selection == old(state).selection,
        len > 0 ==> final(state).selection == Some(next_row(old(state).selection, len as nat)),
{
    if len > 0 {
        let i = match state.selected() {
            Some(i) => if i >= len - 1 {
                0
            } else {
                i + 1
            },
            None => 0,
        };
        state.select(Some(i));
    }
}

/// The selection after moving up in a list of `len` rows (unchanged when it is empty).
pub fn select_previous(state: &mut ListState, len: usize)
    ensures
        len == 0 ==> final(state).selection == old(state).selection,
        len > 0 ==> final(state).selection == Some(previous_row(old(state).selection, len as nat)),
{
    if len > 0 {
        let i = match state.selected() {
            Some(i) => if i == 0 {
                len - 1
            } else {
                i - 1
            },
            None => 0,
        };
        state.select(Some(i));
    }
}

/// Moving the selection keeps it on a row of a non-empty list, and moving up undoes
/// moving down (and the other way round) when a row is selected.
pub proof fn law_selection_wraps_within_list(i: usize, len: nat)
    requires
        i < len,
        len <= usize::MAX,
    ensures
        next_row(Some(i), len) < len,
        previous_row(Some(i), len) < len,
        previous_row(Some(next_row(Some(i), len)), len) == i,
        next_row(Some(previous_row(Some(i), len)), len) == i,
{
}

} // verus!
