//! The reader's position in a book (chapter and scroll offset), paging through
//! chapters, and case-insensitive search with navigation between matches.

use vstd::prelude::*;

use crate::app::state::AppState;
use crate::utils::text::{
    decimal, lemma_search_lines_on_lines, lemma_split_lines_nonempty, line_count, push_decimal,
    search_lines, search_text, split_lines,
};

verus! {

broadcast use vstd::string::group_string_axioms;

#[derive(Debug, Clone)]
pub struct SearchState {
    pub active: bool,
    pub query: String,
    /// (line index, byte offset of the match in the lower-cased line)
    pub matches: Vec<(usize, usize)>,
    pub current_match_index: usize,
}

impl Default for SearchState {
    fn default() -> (res: Self)
        ensures
            !res.active,
            res.query@.len() == 0,
            res.matches@.len() == 0,
            res.current_match_index == 0,
    {
        SearchState {
            active: false,
            query: String::new(),
            matches: Vec::new(),
            current_match_index: 0,
        }
    }
}

/// How a stretch of a line is shown.
#[derive(Debug, Clone, Copy, PartialEq, Eq, Structural)]
pub enum SegmentStyle {
    Plain,
    Match,
    CurrentMatch,
}

/// A byte range `start..end` of a line and how it is shown.
#[derive(Debug, Clone, Copy, PartialEq, Eq, Structural)]
pub struct Segment {
    pub start: usize,
    pub end: usize,
    pub style: SegmentStyle,
}

/// The highlighted and plain stretches of line `line` from match `k` on, starting at
/// byte `pos`: each match on the line that does not start before `pos` is preceded by
/// the plain text since `pos` and highlighted for `query_len` bytes. Also gives the
/// byte where the last highlight ends.
pub open spec fn segments_from(
    matches: Seq<(usize, usize)>,
    k: int,
    line: usize,
    pos: usize,
    query_len: usize,
    current: (usize, usize),
) -> (Seq<Segment>, usize)
    decreases matches.len() - k,
{
    if k < 0 || k >= matches.len() {
        (Seq::empty(), pos)
    } else {
        let (ml, mc) = matches[k];
        if ml != line || mc < pos {
            segments_from(matches, k + 1, line, pos, query_len, current)
        } else {
            let end = (mc + query_len) as usize;
            let before = if mc > pos {
                seq![Segment { start: pos, end: mc, style: SegmentStyle::Plain }]
            } else {
                Seq::empty()
            };
            let hl = Segment {
                start: mc,
                end,
                style: if matches[k] == current {
                    SegmentStyle::CurrentMatch
                } else {
                    SegmentStyle::Match
                },
            };
            let rest = segments_from(matches, k + 1, line, end, query_len, current);
            (before + seq![hl] + rest.0, rest.1)
        }
    }
}

/// Some match lies on the line.
pub open spec fn has_match_on_line(matches: Seq<(usize, usize)>, line: usize) -> bool {
    exists|k: int| 0 <= k < matches.len() && #[trigger] matches[k].0 == line
}

/// How line `line` (of `line_len` bytes) is shown: all plain when no search is active,
/// it found nothing or the query is empty; otherwise its matches highlighted (see
/// `segments_from`), the rest after the last highlight plain, and all plain when no
/// match lies on it.
pub open spec fn line_segments_spec(search: &SearchState, line: usize, line_len: usize) -> Seq<Segment> {
    let query_len = crate::utils::text::byte_len(search.query@);
    let whole = seq![Segment { start: 0, end: line_len, style: SegmentStyle::Plain }];
    if !search.active || search.matches@.len() == 0 || query_len == 0 {
        whole
    } else {
        let current = search.matches@[search.current_match_index as int];
        let (segs, pos) = segments_from(search.matches@, 0, line, 0, query_len, current);
        let with_tail = if pos < line_len {
            segs.push(Segment { start: pos, end: line_len, style: SegmentStyle::Plain })
        } else {
            segs
        };
        if with_tail.len() == 0 {
            whole
        } else {
            with_tail
        }
    }
}

pub struct Reader {
    pub scroll_offset: usize,
    pub last_known_height: u16,
    pub current_chapter: usize,
    pub search: SearchState,
}

/// The lines a page shows in a window of the given height: the height less the
/// two border rows, and at least one.
pub open spec fn lines_per_page(height: u16) -> usize {
    if height <= 2 {
        1
    } else {
        (height - 2) as usize
    }
}

/// The text the reader shows for the current chapter of the current book.
pub open spec fn shown_text(state: &AppState, chapter: usize) -> Option<Seq<char>> {
    match state.current_book {
        Some(book) => book.content.spec_current_text(chapter),
        None => None,
    }
}

/// The (chapter, scroll offset) after scrolling one page down.
pub open spec fn scroll_down_target(state: &AppState, chapter: usize, offset: usize, height: u16) -> (
    usize,
    usize,
) {
    let lpp = lines_per_page(height);
    match state.current_book {
        Some(book) => match book.content.spec_current_text(chapter) {
            Some(text) => if offset + lpp >= split_lines(text).len() {
                if chapter < book.content.chapters@.len() - 1 {
                    ((chapter + 1) as usize, 0)
                } else {
                    (chapter, offset)
                }
            } else {
                (chapter, (offset + lpp) as usize)
            },
            None => (chapter, (offset + lpp) as usize),
        },
        None => (chapter, (offset + lpp) as usize),
    }
}

/// The (chapter, scroll offset) after scrolling one page up: within the chapter while
/// not at its top, otherwise to the last page of the previous chapter.
pub open spec fn scroll_up_target(state: &AppState, chapter: usize, offset: usize, height: u16) -> (
    usize,
    usize,
) {
    let lpp = lines_per_page(height);
    if offset > 0 {
        (chapter, if lpp > offset { 0 } else { (offset - lpp) as usize })
    } else if chapter > 0 {
        let prev = (chapter - 1) as usize;
        match state.current_book {
            Some(book) => if prev < book.content.chapters@.len() {
                let total = split_lines(book.content.chapters@[prev as int]@).len();
                (prev, if total > lpp { (total - lpp) as usize } else { 0 })
            } else {
                (prev, 0)
            },
            None => (prev, offset),
        }
    } else {
        (chapter, offset)
    }
}

/// Scrolling down is free of overflow and of an empty chapter list where it counts.
pub open spec fn scroll_down_allowed(state: &AppState, chapter: usize, offset: usize, height: u16) -> bool {
    &&& offset + lines_per_page(height) <= usize::MAX
    &&& match state.current_book {
        Some(book) => match book.content.spec_current_text(chapter) {
            Some(text) => offset + lines_per_page(height) >= split_lines(text).len()
                ==> book.content.chapters@.len() > 0,
            None => true,
        },
        None => true,
    }
}

/// The scroll offset after bringing the match at `index` into view: unchanged when its
/// line is already on the page, 0 when the line is in the first half page, otherwise
/// the line centred.
pub open spec fn jump_target(matches: Seq<(usize, usize)>, index: usize, offset: usize, height: u16) -> usize {
    if index < matches.len() {
        let line = matches[index as int].0;
        let avail = lines_per_page(height);
        if line >= offset && line < offset + avail {
            offset
        } else if line < avail / 2 {
            0
        } else {
            (line - avail / 2) as usize
        }
    } else {
        offset
    }
}

/// Bringing the match at `index` into view is free of overflow.
pub open spec fn jump_allowed(matches: Seq<(usize, usize)>, index: usize, offset: usize, height: u16) -> bool {
    index < matches.len() && matches[index as int].0 >= offset ==> offset + lines_per_page(height)
        <= usize::MAX
}

/// The matches that a search for `query` finds in the text shown for the chapter.
pub open spec fn search_results(state: &AppState, chapter: usize, query: Seq<char>) -> Seq<(usize, usize)> {
    if query.len() == 0 {
        Seq::empty()
    } else {
        match shown_text(state, chapter) {
            Some(text) => search_lines(split_lines(text), query),
            None => Seq::empty(),
        }
    }
}

/// The match index after moving to the next match, wrapping around.
pub open spec fn next_match_index(index: usize, count: nat) -> usize {
    ((index + 1) % (count as int)) as usize
}

/// The match index after moving to the previous match, wrapping around.
pub open spec fn previous_match_index(index: usize, count: nat) -> usize {
    if index == 0 {
        (count - 1) as usize
    } else {
        (index - 1) as usize
    }
}

/// The reader's title: "Reader", followed while a search is open by the query and
/// the number of matches.
pub open spec fn reader_title(reader: &Reader) -> Seq<char> {
    if reader.search.active {
        "Reader - Search: \""@ + reader.search.query@ + "\" ("@ + decimal(
            reader.search.matches@.len(),
        ) + " matches)"@
    } else {
        "Reader"@
    }
}

impl Reader {
    /// The title shown above the text (see `reader_title`).
    pub fn title(&self) -> (title: String)
        ensures
            title@ == reader_title(self),
    {
        if self.search.active {
            let mut title = String::from_str("Reader - Search: \"");
            title.push_str(self.search.query.as_str());
            title.push_str("\" (");
            push_decimal(&mut title, self.search.matches.len());
            title.push_str(" matches)");
            assert(title@ =~= reader_title(self));
            title
        } else {
            String::from_str("Reader")
        }
    }
}

impl Reader {
    /// Whether `line_segments` can be asked for this line: the current match exists
    /// when a match lies on the line, and no highlight ends past `usize::MAX`.
    pub fn line_segments_allowed(&self, line_idx: usize) -> (ok: bool)
        ensures
            ok == ((self.search.active && self.search.matches@.len() > 0
                && crate::utils::text::byte_len(self.search.query@) > 0 && has_match_on_line(
                self.search.matches@,
                line_idx,
            ) ==> self.search.current_match_index < self.search.matches@.len()) && (forall|k: int|
                0 <= k < self.search.matches@.len() && #[trigger] self.search.matches@[k].0
                    == line_idx ==> self.search.matches@[k].1 + crate::utils::text::byte_len(
                    self.search.query@,
                ) <= usize::MAX)),
    {
        let query_len = self.search.query.as_str().len();
        let mut on_line = false;
        let mut k: usize = 0;
        while k < self.search.matches.len()
            invariant
                k <= self.search.matches@.len(),
                query_len == crate::utils::text::byte_len(self.search.query@),
                on_line == exists|j: int| 0 <= j < k && #[trigger] self.search.matches@[j].0 == line_idx,
                forall|j: int|
                    0 <= j < k && #[trigger] self.search.matches@[j].0 == line_idx
                        ==> self.search.matches@[j].1 + query_len <= usize::MAX,
            decreases self.search.matches@.len() - k,
        {
            let (l, c) = self.search.matches[k];
            if l == line_idx {
                if c.checked_add(query_len).is_none() {
                    return false;
                }
                on_line = true;
            }
            k = k + 1;
        }
        if self.search.active && self.search.matches.len() > 0 && query_len > 0 && on_line {
            self.search.current_match_index < self.search.matches.len()
        } else {
            true
        }
    }

    /// The stretches of line `line_idx` (of `line_len` bytes) to show plain or
    /// highlighted (see `line_segments_spec`).
    pub fn line_segments(&self, line_idx: usize, line_len: usize) -> (segments: Vec<Segment>)
        requires
            self.search.active && self.search.matches@.len() > 0 && crate::utils::text::byte_len(
                self.search.query@,
            ) > 0 && has_match_on_line(self.search.matches@, line_idx)
                ==> self.search.current_match_index < self.search.matches@.len(),
            forall|k: int|
                0 <= k < self.search.matches@.len() && #[trigger] self.search.matches@[k].0
                    == line_idx ==> self.search.matches@[k].1 + crate::utils::text::byte_len(
                    self.search.query@,
                ) <= usize::MAX,
        ensures
            segments@ == line_segments_spec(&self.search, line_idx, line_len),
    {
        let query_len = self.search.query.as_str().len();
        let mut whole: Vec<Segment> = Vec::new();
        whole.push(Segment { start: 0, end: line_len, style: SegmentStyle::Plain });
        if !self.search.active || self.search.matches.len() == 0 || query_len == 0 {
            return whole;
        }
        let ghost matches = self.search.matches@;
        let ghost current = matches[self.search.current_match_index as int];
        let mut spans: Vec<Segment> = Vec::new();
        let mut current_pos: usize = 0;
        let mut k: usize = 0;
        while k < self.search.matches.len()
            invariant
                k <= matches.len(),
                matches == self.search.matches@,
                query_len == crate::utils::text::byte_len(self.search.query@),
                query_len > 0,
                self.search.active,
                current == matches[self.search.current_match_index as int],
                has_match_on_line(matches, line_idx) ==> self.search.current_match_index
                    < matches.len(),
                forall|j: int|
                    0 <= j < matches.len() && #[trigger] matches[j].0 == line_idx ==> matches[j].1
                        + query_len <= usize::MAX,
                ({
                    let r = segments_from(matches, k as int, line_idx, current_pos, query_len, current);
                    (spans@ + r.0, r.1) == segments_from(matches, 0, line_idx, 0, query_len, current)
                }),
            decreases matches.len() - k,
        {
            let (match_line, match_col) = self.search.matches[k];
            if match_line == line_idx && match_col >= current_pos {
                assert(matches[k as int].0 == line_idx);
                let ghost before = spans@;
                if match_col > current_pos {
                    spans.push(Segment { start: current_pos, end: match_col, style: SegmentStyle::Plain });
                }
                let end = match_col + query_len;
                let (cur_line, cur_col) = self.search.matches[self.search.current_match_index];
                let is_current = cur_line == match_line && cur_col == match_col;
                let style = if is_current {
                    SegmentStyle::CurrentMatch
                } else {
                    SegmentStyle::Match
                };
                spans.push(Segment { start: match_col, end, style });
                let ghost r = segments_from(matches, k + 1, line_idx, end, query_len, current);
                assert(spans@ + r.0 =~= before + segments_from(
                    matches,
                    k as int,
                    line_idx,
                    current_pos,
                    query_len,
                    current,
                ).0);
                current_pos = end;
            }
            k = k + 1;
        }
        if current_pos < line_len {
            spans.push(Segment { start: current_pos, end: line_len, style: SegmentStyle::Plain });
        }
        if spans.len() == 0 {
            return whole;
        }
        spans
    }

    pub fn new() -> (res: Self)
        ensures
            res.scroll_offset == 0,
            res.last_known_height == 52,
            res.current_chapter == 0,
            !res.search.active,
            res.search.query@.len() == 0,
            res.search.matches@.len() == 0,
            res.search.current_match_index == 0,
    {
        Self {
            scroll_offset: 0,
            last_known_height: 52,
            current_chapter: 0,
            search: SearchState::default(),
        }
    }

    /// The lines available in a window of the given height (two rows go to borders).
    pub fn calculate_lines_per_page(height: u16) -> (n: usize)
        ensures
            n == lines_per_page(height),
            n >= 1,
    {
        let available = height.saturating_sub(2);
        if available == 0 {
            1
        } else {
            available as usize
        }
    }

    /// One page down; at the end of a chapter, on to the start of the next one.
    pub fn scroll_down(&mut self, state: &AppState)
        requires
            scroll_down_allowed(
                state,
                old(self).current_chapter,
                old(self).scroll_offset,
                old(self).last_known_height,
            ),
        ensures
            (final(self).current_chapter, final(self).scroll_offset) == scroll_down_target(
                state,
                old(self).current_chapter,
                old(self).scroll_offset,
                old(self).last_known_height,
            ),
            final(self).last_known_height == old(self).last_known_height,
            final(self).search == old(self).search,
    {
        let lines_per_page = Self::calculate_lines_per_page(self.last_known_height);
        match &state.current_book {
            Some(book) => {
                match book.content.current_text(self.current_chapter) {
                    Some(text) => {
                        let total_lines = line_count(text);
                        if self.scroll_offset + lines_per_page >= total_lines {
                            if self.current_chapter < book.content.chapter_count() - 1 {
                                self.current_chapter = self.current_chapter + 1;
                                self.scroll_offset = 0;
                            }
                        } else {
                            self.scroll_offset = self.scroll_offset + lines_per_page;
                        }
                    },
                    None => {
                        self.scroll_offset = self.scroll_offset + lines_per_page;
                    },
                }
            },
            None => {
                self.scroll_offset = self.scroll_offset + lines_per_page;
            },
        }
    }

    /// One page up; at the top of a chapter, back to the last page of the previous one.
    pub fn scroll_up(&mut self, state: &AppState)
        ensures
            (final(self).current_chapter, final(self).scroll_offset) == scroll_up_target(
                state,
                old(self).current_chapter,
                old(self).scroll_offset,
                old(self).last_known_height,
            ),
            final(self).last_known_height == old(self).last_known_height,
            final(self).search == old(self).search,
    {
        let lines_per_page = Self::calculate_lines_per_page(self.last_known_height);
        if self.scroll_offset > 0 {
            if lines_per_page > self.scroll_offset {
                self.scroll_offset = 0;
            } else {
                self.scroll_offset = self.scroll_offset - lines_per_page;
            }
        } else if self.current_chapter > 0 {
            self.current_chapter = self.current_chapter - 1;
            match &state.current_book {
                Some(book) => {
                    match book.content.get_chapter(self.current_chapter) {
                        Some(text) => {
                            let total_lines = line_count(text);
                            self.scroll_offset = total_lines.saturating_sub(lines_per_page);
                        },
                        None => {
                            self.scroll_offset = 0;
                        },
                    }
                },
                None => {},
            }
        }
    }

    /// On to the start of the next chapter, if there is one.
    pub fn next_chapter(&mut self, state: &AppState)
        requires
            state.current_book matches Some(book) ==> book.content.chapters@.len() > 0,
        ensures
            (final(self).current_chapter, final(self).scroll_offset) == next_chapter_target(
                state,
                old(self).current_chapter,
                old(self).scroll_offset,
            ),
            final(self).last_known_height == old(self).last_known_height,
            final(self).search == old(self).search,
    {
        match &state.current_book {
            Some(book) => {
                if self.current_chapter < book.content.chapter_count() - 1 {
                    self.current_chapter = self.current_chapter + 1;
                    self.scroll_offset = 0;
                }
            },
            None => {},
        }
    }

    /// Back to the start of the previous chapter, if there is one.
    pub fn previous_chapter(&mut self)
        ensures
            (final(self).current_chapter, final(self).scroll_offset) == previous_chapter_target(
                old(self).current_chapter,
                old(self).scroll_offset,
            ),
            final(self).last_known_height == old(self).last_known_height,
            final(self).search == old(self).search,
    {
        if self.current_chapter > 0 {
            self.current_chapter = self.current_chapter - 1;
            self.scroll_offset = 0;
        }
    }

    /// Opens an empty search.
    pub fn start_search(&mut self)
        ensures
            final(self).search.active,
            final(self).search.query@.len() == 0,
            final(self).search.matches@.len() == 0,
            final(self).search.current_match_index == 0,
            final(self).scroll_offset == old(self).scroll_offset,
            final(self).current_chapter == old(self).current_chapter,
            final(self).last_known_height == old(self).last_known_height,
    {
        self.search.active = true;
        self.search.query = String::new();
        self.search.matches.clear();
        self.search.current_match_index = 0;
    }

    /// Closes the search and forgets it.
    pub fn cancel_search(&mut self)
        ensures
            !final(self).search.active,
            final(self).search.query@.len() == 0,
            final(self).search.matches@.len() == 0,
            final(self).search.current_match_index == 0,
            final(self).scroll_offset == old(self).scroll_offset,
            final(self).current_chapter == old(self).current_chapter,
            final(self).last_known_height == old(self).last_known_height,
    {
        self.search.active = false;
        self.search.query = String::new();
        self.search.matches.clear();
        self.search.current_match_index = 0;
    }

    /// Finds the query in the text shown for the current chapter and brings the
    /// current match into view.
    pub fn update_search(&mut self, state: &AppState)
        requires
            jump_allowed(
                search_results(state, old(self).current_chapter, old(self).search.query@),
                old(self).search.current_match_index,
                old(self).scroll_offset,
                old(self).last_known_height,
            ),
        ensures
            final(self).search.matches@ == search_results(
                state,
                old(self).current_chapter,
                old(self).search.query@,
            ),
            final(self).scroll_offset == jump_target(
                final(self).search.matches@,
                old(self).search.current_match_index,
                old(self).scroll_offset,
                old(self).last_known_height,
            ),
            final(self).search.active == old(self).search.active,
            final(self).search.query == old(self).search.query,
            final(self).search.current_match_index == old(self).search.current_match_index,
            final(self).current_chapter == old(self).current_chapter,
            final(self).last_known_height == old(self).last_known_height,
    {
        self.search.matches.clear();
        if self.search.query.as_str().is_empty() {
            assert(self.search.matches@ =~= search_results(state, self.current_chapter, self.search.query@));
            return;
        }
        match &state.current_book {
            Some(book) => {
                match book.content.current_text(self.current_chapter) {
                    Some(text) => {
                        self.search.matches = search_text(text, self.search.query.as_str());
                    },
                    None => {},
                }
            },
            None => {},
        }
        assert(self.search.matches@ =~= search_results(state, self.current_chapter, self.search.query@));
        if self.search.matches.len() > 0 {
            self.jump_to_current_match();
        }
    }

    /// Brings the current match into view (see `jump_target`).
    pub fn jump_to_current_match(&mut self)
        requires
            jump_allowed(
                old(self).search.matches@,
                old(self).search.current_match_index,
                old(self).scroll_offset,
                old(self).last_known_height,
            ),
        ensures
            final(self).scroll_offset == jump_target(
                old(self).search.matches@,
                old(self).search.current_match_index,
                old(self).scroll_offset,
                old(self).last_known_height,
            ),
            final(self).search == old(self).search,
            final(self).current_chapter == old(self).current_chapter,
            final(self).last_known_height == old(self).last_known_height,
    {
        if self.search.current_match_index < self.search.matches.len() {
            let line_idx = self.search.matches[self.search.current_match_index].0;
            let available_height = Self::calculate_lines_per_page(self.last_known_height);
            if line_idx >= self.scroll_offset && line_idx < self.scroll_offset + available_height {
            } else if line_idx < available_height / 2 {
                self.scroll_offset = 0;
            } else {
                self.scroll_offset = line_idx.saturating_sub(available_height / 2);
            }
        }
    }

    /// On to the next match, wrapping around, and into view.
    pub fn next_match(&mut self, _state: &AppState)
        requires
            old(self).search.matches@.len() > 0 ==> old(self).search.current_match_index < usize::MAX
                && jump_allowed(
                old(self).search.matches@,
                next_match_index(old(self).search.current_match_index, old(self).search.matches@.len()),
                old(self).scroll_offset,
                old(self).last_known_height,
            ),
        ensures
            old(self).search.matches@.len() == 0 ==> final(self).search == old(self).search
                && final(self).scroll_offset == old(self).scroll_offset,
            old(self).search.matches@.len() > 0 ==> {
                &&& final(self).search.current_match_index == next_match_index(
                    old(self).search.current_match_index,
                    old(self).search.matches@.len(),
                )
                &&& final(self).scroll_offset == jump_target(
                    old(self).search.matches@,
                    final(self).search.current_match_index,
                    old(self).scroll_offset,
                    old(self).last_known_height,
                )
                &&& final(self).search.matches == old(self).search.matches
                &&& final(self).search.query == old(self).search.query
                &&& final(self).search.active == old(self).search.active
            },
            final(self).current_chapter == old(self).current_chapter,
            final(self).last_known_height == old(self).last_known_height,
    {
        if self.search.matches.len() == 0 {
            return;
        }
        self.search.current_match_index = (self.search.current_match_index + 1)
            % self.search.matches.len();
        self.jump_to_current_match();
    }

    /// Back to the previous match, wrapping around, and into view.
    pub fn previous_match(&mut self, _state: &AppState)
        requires
            old(self).search.matches@.len() > 0 ==> jump_allowed(
                old(self).search.matches@,
                previous_match_index(
                    old(self).search.current_match_index,
                    old(self).search.matches@.len(),
                ),
                old(self).scroll_offset,
                old(self).last_known_height,
            ),
        ensures
            old(self).search.matches@.len() == 0 ==> final(self).search == old(self).search
                && final(self).scroll_offset == old(self).scroll_offset,
            old(self).search.matches@.len() > 0 ==> {
                &&& final(self).search.current_match_index == previous_match_index(
                    old(self).search.current_match_index,
                    old(self).search.matches@.len(),
                )
                &&& final(self).scroll_offset == jump_target(
                    old(self).search.matches@,
                    final(self).search.current_match_index,
                    old(self).scroll_offset,
                    old(self).last_known_height,
                )
                &&& final(self).search.matches == old(self).search.matches
                &&& final(self).search.query == old(self).search.query
                &&& final(self).search.active == old(self).search.active
            },
            final(self).current_chapter == old(self).current_chapter,
            final(self).last_known_height == old(self).last_known_height,
    {
        if self.search.matches.len() == 0 {
            return;
        }
        if self.search.current_match_index == 0 {
            self.search.current_match_index = self.search.matches.len() - 1;
        } else {
            self.search.current_match_index = self.search.current_match_index - 1;
        }
        self.jump_to_current_match();
    }
}

/// Moving to the previous match undoes moving to the next one, and the other way round.
pub proof fn law_match_navigation_inverse(index: usize, count: nat)
    requires
        index < count,
        count <= usize::MAX,
    ensures
        previous_match_index(next_match_index(index, count), count) == index,
        next_match_index(previous_match_index(index, count), count) == index,
{
    if index + 1 < count {
        vstd::arithmetic::div_mod::lemma_small_mod((index + 1) as nat, count);
    } else {
        vstd::arithmetic::div_mod::lemma_mod_self_0(count as int);
    }
    if index > 0 {
        vstd::arithmetic::div_mod::lemma_small_mod(index as nat, count);
    } else {
        vstd::arithmetic::div_mod::lemma_small_mod((count - 1) as nat, count);
        vstd::arithmetic::div_mod::lemma_mod_self_0(count as int);
    }
}

/// After jumping to a match, the match's line is on the page.
pub proof fn law_jump_shows_match(matches: Seq<(usize, usize)>, index: usize, offset: usize, height: u16)
    requires
        index < matches.len(),
        jump_allowed(matches, index, offset, height),
    ensures
        jump_target(matches, index, offset, height) <= matches[index as int].0,
        matches[index as int].0 < jump_target(matches, index, offset, height) + lines_per_page(height),
{
}

/// Scrolling down within a chapter and back up returns to the same place.
pub proof fn law_scroll_down_then_up(state: &AppState, chapter: usize, offset: usize, height: u16)
    requires
        scroll_down_allowed(state, chapter, offset, height),
        scroll_down_target(state, chapter, offset, height).0 == chapter,
        scroll_down_target(state, chapter, offset, height).1 != offset,
        chapter < usize::MAX,
    ensures
        scroll_up_target(
            state,
            chapter,
            scroll_down_target(state, chapter, offset, height).1,
            height,
        ) == (chapter, offset),
{
    let lpp = lines_per_page(height);
    assert(lpp >= 1);
    match state.current_book {
        Some(book) => match book.content.spec_current_text(chapter) {
            Some(text) => {
                if offset + lpp >= split_lines(text).len() {
                    if chapter < book.content.chapters@.len() - 1 {
                        assert(scroll_down_target(state, chapter, offset, height).0 != chapter);
                    }
                }
            },
            None => {},
        },
        None => {},
    }
    assert(scroll_down_target(state, chapter, offset, height).1 == offset + lpp);
}

/// The (chapter, scroll offset) after moving to the next chapter.
pub open spec fn next_chapter_target(state: &AppState, chapter: usize, offset: usize) -> (usize, usize) {
    match state.current_book {
        Some(book) => if chapter < book.content.chapters@.len() - 1 {
            ((chapter + 1) as usize, 0)
        } else {
            (chapter, offset)
        },
        None => (chapter, offset),
    }
}

/// The (chapter, scroll offset) after moving to the previous chapter.
pub open spec fn previous_chapter_target(chapter: usize, offset: usize) -> (usize, usize) {
    if chapter > 0 {
        ((chapter - 1) as usize, 0)
    } else {
        (chapter, offset)
    }
}

/// Moving to the next chapter and back lands at the top of the chapter one started in.
pub proof fn law_next_then_previous_chapter(state: &AppState, chapter: usize, offset: usize)
    requires
        state.current_book matches Some(book) && chapter + 1 < book.content.chapters@.len(),
        chapter < usize::MAX,
    ensures
        ({
            let (c, o) = next_chapter_target(state, chapter, offset);
            previous_chapter_target(c, o)
        }) == (chapter, 0usize),
{
}

/// Scrolling up a full page within a chapter and back down returns to the same place.
pub proof fn law_scroll_up_then_down(state: &AppState, chapter: usize, offset: usize, height: u16)
    requires
        offset >= lines_per_page(height),
        shown_text(state, chapter) matches Some(text) && offset < split_lines(text).len(),
    ensures
        scroll_down_target(
            state,
            chapter,
            scroll_up_target(state, chapter, offset, height).1,
            height,
        ) == (chapter, offset),
{
    assert(scroll_up_target(state, chapter, offset, height) == (
        chapter,
        (offset - lines_per_page(height)) as usize,
    ));
}

/// A search in a book of several chapters looks only at the chapter shown: its
/// matches are those of the query in that chapter's lines, each on one of them;
/// earlier chapters and the separators between chapters count for nothing.
pub proof fn law_search_stays_in_shown_chapter(state: &AppState, chapter: usize, query: Seq<char>)
    requires
        state.current_book matches Some(book) && book.content.chapters@.len() > 1 && chapter
            < book.content.chapters@.len() && split_lines(book.content.chapters@[chapter as int]@).len()
            <= usize::MAX,
        query.len() > 0,
    ensures
        state.current_book matches Some(book) && {
            let lines = split_lines(book.content.chapters@[chapter as int]@);
            &&& search_results(state, chapter, query) == search_lines(lines, query)
            &&& forall|k: int|
                0 <= k < search_results(state, chapter, query).len() ==> (#[trigger] search_results(
                    state,
                    chapter,
                    query,
                )[k]).0 < lines.len()
        },
{
    let book = state.current_book->0;
    lemma_search_lines_on_lines(split_lines(book.content.chapters@[chapter as int]@), query);
}

/// Moving to the next match goes one match forward, and from the last back to the
/// first; moving to the previous match goes one back, and from the first to the last.
pub proof fn law_match_navigation_steps(index: usize, count: nat)
    requires
        index < count,
        count <= usize::MAX,
    ensures
        index + 1 < count ==> next_match_index(index, count) == index + 1,
        index + 1 == count ==> next_match_index(index, count) == 0,
        index > 0 ==> previous_match_index(index, count) == index - 1,
        index == 0 ==> previous_match_index(index, count) == count - 1,
{
    if index + 1 < count {
        vstd::arithmetic::div_mod::lemma_small_mod((index + 1) as nat, count);
    } else {
        vstd::arithmetic::div_mod::lemma_mod_self_0(count as int);
    }
}

/// Moving to another chapter shows it from its top: the previous chapter from any
/// chapter but the first, whatever the scroll offset was, and the next chapter
/// whenever there is one; with nowhere to go, nothing moves.
pub proof fn law_chapter_moves_start_at_top(state: &AppState, chapter: usize, offset: usize)
    ensures
        chapter > 0 ==> previous_chapter_target(chapter, offset) == ((chapter - 1) as usize, 0usize),
        chapter == 0 ==> previous_chapter_target(chapter, offset) == (chapter, offset),
        state.current_book matches Some(book) && chapter + 1 < book.content.chapters@.len() && chapter
            < usize::MAX ==> next_chapter_target(state, chapter, offset) == ((chapter + 1) as usize, 0usize),
        state.current_book matches Some(book) && chapter + 1 >= book.content.chapters@.len()
            ==> next_chapter_target(state, chapter, offset) == (chapter, offset),
        state.current_book is None ==> next_chapter_target(state, chapter, offset) == (chapter, offset),
{
}

/// Scrolling down never runs past the end of the text shown: when the text's last line
/// is on the page and no chapter follows, nothing moves; any move lands on a line of
/// the text then shown, a page further into the same chapter or at the top of the next.
pub proof fn law_scroll_down_stays_in_text(state: &AppState, chapter: usize, offset: usize, height: u16)
    requires
        scroll_down_allowed(state, chapter, offset, height),
        shown_text(state, chapter) is Some,
    ensures
        ({
            let total = split_lines(shown_text(state, chapter)->0).len();
            let last = state.current_book->0.content.chapters@.len() <= chapter + 1;
            offset + lines_per_page(height) >= total && last ==> scroll_down_target(
                state,
                chapter,
                offset,
                height,
            ) == (chapter, offset)
        }),
        ({
            let (c, o) = scroll_down_target(state, chapter, offset, height);
            ||| (c, o) == (chapter, offset)
            ||| c == chapter && o == offset + lines_per_page(height) && o < split_lines(
                shown_text(state, chapter)->0,
            ).len()
            ||| c == chapter + 1 && o == 0 && (shown_text(state, c) matches Some(t) && o < split_lines(
                t,
            ).len())
        }),
{
    let book = state.current_book->0;
    let n = book.content.chapters@.len();
    assert(book.content.chapters.len() == n);
    if chapter + 1 < n {
        lemma_split_lines_nonempty(book.content.chapters@[chapter + 1]@);
    }
}

} // verus!
