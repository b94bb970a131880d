//! What each key does in each view: the decisions of the event loop, as a step from
//! state and key to new state and an action for the caller to carry out (reading a
//! book file, saving the settings), and the steps that follow once a file is read.

use vstd::prelude::*;

use crate::app::settings::{Bookmark, Settings};
use crate::app::state::{next_charset, AppState};
use crate::book::content::Book;
use crate::book::formats::epub::epub_parse_result;
use crate::book::formats::txt::{txt_text, Charset};
use crate::book::parser::{BookParser, BookParserFactory, ParseError, ParserType};
use crate::tui::ui::bookmarks::{selection_after_delete, BookmarksView};
use crate::tui::ui::library::Library;
use crate::tui::ui::reader::{
    jump_allowed, jump_target, lines_per_page, next_chapter_target, next_match_index, previous_chapter_target,
    previous_match_index, scroll_down_allowed, scroll_down_target, scroll_up_target,
    search_results, Reader,
};
use crate::tui::ui::selection::{next_row, previous_row};

verus! {

broadcast use vstd::string::group_string_axioms;

/// A key press, as far as the views tell keys apart.
#[derive(Debug, Clone, Copy, PartialEq, Eq, Structural)]
pub enum Key {
    Char(char),
    Up,
    Down,
    PageUp,
    PageDown,
    Enter,
    Esc,
    Backspace,
    Delete,
    Other,
}

/// What the caller is to do after a key has been handled.
#[derive(Debug)]
pub enum KeyAction {
    Nothing,
    /// Read the library's book file at `index`, then `open_book` it.
    OpenBook { index: usize },
    /// Read the library's book file at `index`, then `reload_txt_book` it.
    ReloadTxtBook { index: usize },
    /// Read the bookmark's book file, then `open_bookmark` it.
    OpenBookmark { bookmark: Bookmark },
    /// Save the settings: the bookmarks changed.
    SaveSettings,
}

/// What parsing a book file gives, with the file's extension choosing the format and
/// its name titling plain-text books: `None` when there is no format for the
/// extension or the book cannot be read.
pub open spec fn parse_outcome(
    charset: Charset,
    extension: Seq<char>,
    title: Seq<char>,
    content: Seq<u8>,
    res: Option<Book>,
) -> bool {
    match ParserType::spec_from_extension(extension) {
        Some(ParserType::Txt) => match res {
            Some(book) => {
                &&& book.metadata.title@ == title
                &&& book.metadata.author@ == "Unknown Author"@
                &&& book.metadata.format@ == "txt"@
                &&& book.content.full_text@ == txt_text(charset, content)
                &&& book.content.chapters.deep_view() == seq![book.content.full_text@]
                &&& book.content.chapter_offsets@ == seq![0usize]
            },
            None => false,
        },
        Some(ParserType::Epub) => match res {
            Some(book) => epub_parse_result(content, Ok(book)),
            None => exists|e: ParseError| epub_parse_result(content, Err(e)),
        },
        _ => res is None,
    }
}

/// Parsing a book file can be asked of the content: MOBI has no parser, and plain
/// text must be decodable within the decoder's size limit.
pub open spec fn parse_allowed(extension: Seq<char>, content: Seq<u8>) -> bool {
    &&& ParserType::spec_from_extension(extension) != Some(ParserType::Mobi)
    &&& ParserType::spec_from_extension(extension) == Some(ParserType::Txt) ==> content.len()
        <= usize::MAX / 4
}

/// Whether a book file with this extension and content can be parsed (see `parse_allowed`).
pub fn parse_is_allowed(extension: &str, content: &[u8]) -> (ok: bool)
    ensures
        ok == parse_allowed(extension@, content@),
{
    match ParserType::from_extension(extension) {
        Some(ParserType::Mobi) => false,
        Some(ParserType::Txt) => content.len() <= usize::MAX / 4,
        _ => true,
    }
}

/// Parses a book file in the format its extension names; a plain-text book is read
/// in `charset` and titled `title`.
pub fn parse_book(charset: Charset, extension: &str, title: String, content: &[u8]) -> (res: Option<Book>)
    requires
        parse_allowed(extension@, content@),
    ensures
        parse_outcome(charset, extension@, title@, content@, res),
{
    match ParserType::from_extension(extension) {
        Some(parser_type) => {
            let is_txt = match parser_type {
                ParserType::Txt => true,
                _ => false,
            };
            let parser = if is_txt {
                BookParserFactory::create_txt_parser_with_charset(charset)
            } else {
                BookParserFactory::create_parser(parser_type)
            };
            match parser.parse(content) {
                Ok(mut book) => {
                    if is_txt {
                        book.metadata.title = title;
                    }
                    Some(book)
                },
                Err(_) => None,
            }
        },
        None => None,
    }
}

/// Everything about the state but the view and the book is as before.
pub open spec fn same_settings(a: &AppState, b: &AppState) -> bool {
    a.should_quit == b.should_quit && a.settings == b.settings && a.current_charset
        == b.current_charset
}

/// Opens a book file that the library view selected, once its bytes are read: on
/// success the book is loaded, the reader shown and scrolled to the top.
pub fn open_book(
    state: &mut AppState,
    reader: &mut Reader,
    extension: &str,
    title: String,
    content: &[u8],
) -> (opened: bool)
    requires
        parse_allowed(extension@, content@),
    ensures
        opened ==> {
            &&& final(state).current_book matches Some(book) && parse_outcome(
                old(state).current_charset,
                extension@,
                title@,
                content@,
                Some(book),
            )
            &&& final(state).current_view == crate::app::state::View::Reader
            &&& same_settings(final(state), old(state))
            &&& final(reader).scroll_offset == 0
            &&& final(reader).current_chapter == old(reader).current_chapter
            &&& final(reader).search == old(reader).search
            &&& final(reader).last_known_height == old(reader).last_known_height
        },
        !opened ==> parse_outcome(old(state).current_charset, extension@, title@, content@, None)
            && *final(state) == *old(state) && *final(reader) == *old(reader),
{
    match parse_book(state.current_charset, extension, title, content) {
        Some(book) => {
            state.load_book(book);
            reader.scroll_offset = 0;
            true
        },
        None => false,
    }
}

/// Reads the selected plain-text book again after the charset changed, once its bytes
/// are read; other formats are left alone.
pub fn reload_txt_book(
    state: &mut AppState,
    reader: &mut Reader,
    extension: &str,
    title: String,
    content: &[u8],
) -> (reloaded: bool)
    requires
        ParserType::spec_from_extension(extension@) == Some(ParserType::Txt) ==> content@.len()
            <= usize::MAX / 4,
    ensures
        reloaded <==> ParserType::spec_from_extension(extension@) == Some(ParserType::Txt),
        reloaded ==> {
            &&& final(state).current_book matches Some(book) && parse_outcome(
                old(state).current_charset,
                extension@,
                title@,
                content@,
                Some(book),
            )
            &&& final(state).current_view == crate::app::state::View::Reader
            &&& same_settings(final(state), old(state))
            &&& final(reader).scroll_offset == 0
            &&& final(reader).current_chapter == old(reader).current_chapter
            &&& final(reader).search == old(reader).search
            &&& final(reader).last_known_height == old(reader).last_known_height
        },
        !reloaded ==> *final(state) == *old(state) && *final(reader) == *old(reader),
{
    match ParserType::from_extension(extension) {
        Some(ParserType::Txt) => {
            let parser = BookParserFactory::create_txt_parser_with_charset(state.current_charset);
            match parser.parse(content) {
                Ok(mut book) => {
                    book.metadata.title = title;
                    state.load_book(book);
                    reader.scroll_offset = 0;
                    true
                },
                Err(_) => false,
            }
        },
        _ => false,
    }
}

/// Opens a bookmarked book file, once its bytes are read, at the bookmarked chapter
/// and scroll position.
pub fn open_bookmark(
    state: &mut AppState,
    reader: &mut Reader,
    extension: &str,
    title: String,
    content: &[u8],
    bookmark: &Bookmark,
) -> (opened: bool)
    requires
        parse_allowed(extension@, content@),
    ensures
        opened ==> {
            &&& final(state).current_book matches Some(book) && parse_outcome(
                old(state).current_charset,
                extension@,
                title@,
                content@,
                Some(book),
            )
            &&& final(state).current_view == crate::app::state::View::Reader
            &&& same_settings(final(state), old(state))
            &&& final(reader).current_chapter == bookmark.chapter
            &&& final(reader).scroll_offset == bookmark.scroll_offset
            &&& final(reader).search == old(reader).search
            &&& final(reader).last_known_height == old(reader).last_known_height
        },
        !opened ==> parse_outcome(old(state).current_charset, extension@, title@, content@, None)
            && *final(state) == *old(state) && *final(reader) == *old(reader),
{
    match parse_book(state.current_charset, extension, title, content) {
        Some(book) => {
            state.load_book(book);
            reader.current_chapter = bookmark.chapter;
            reader.scroll_offset = bookmark.scroll_offset;
            true
        },
        None => false,
    }
}

/// Only `should_quit` changed, to true.
pub open spec fn quit_effect(old_s: &AppState, new_s: &AppState) -> bool {
    &&& new_s.should_quit
    &&& new_s.current_view == old_s.current_view
    &&& new_s.current_book == old_s.current_book
    &&& new_s.settings == old_s.settings
    &&& new_s.current_charset == old_s.current_charset
}

/// Only the view changed, to `view`.
pub open spec fn switch_effect(old_s: &AppState, new_s: &AppState, view: crate::app::state::View) -> bool {
    &&& new_s.current_view == view
    &&& new_s.should_quit == old_s.should_quit
    &&& new_s.current_book == old_s.current_book
    &&& new_s.settings == old_s.settings
    &&& new_s.current_charset == old_s.current_charset
}

/// What a key does in the library view.
pub open spec fn library_key_effect(
    old_s: &AppState,
    new_s: &AppState,
    key: Key,
    old_l: &Library,
    new_l: &Library,
    action: KeyAction,
) -> bool {
    match key {
        Key::Char('q') => quit_effect(old_s, new_s) && *new_l == *old_l && action is Nothing,
        Key::Char('h') => switch_effect(old_s, new_s, crate::app::state::View::Help) && *new_l
            == *old_l && action is Nothing,
        Key::Down | Key::Char('j') => {
            &&& *new_s == *old_s
            &&& new_l.book_files == old_l.book_files
            &&& new_l.current_dir == old_l.current_dir
            &&& if old_l.book_files@.len() > 0 {
                new_l.list_state.selection == Some(
                    next_row(old_l.list_state.selection, old_l.book_files@.len()),
                )
            } else {
                new_l.list_state == old_l.list_state
            }
            &&& action is Nothing
        },
        Key::Up | Key::Char('k') => {
            &&& *new_s == *old_s
            &&& new_l.book_files == old_l.book_files
            &&& new_l.current_dir == old_l.current_dir
            &&& if old_l.book_files@.len() > 0 {
                new_l.list_state.selection == Some(
                    previous_row(old_l.list_state.selection, old_l.book_files@.len()),
                )
            } else {
                new_l.list_state == old_l.list_state
            }
            &&& action is Nothing
        },
        Key::Enter => {
            &&& *new_s == *old_s
            &&& *new_l == *old_l
            &&& match old_l.list_state.selection {
                Some(i) => if i < old_l.book_files@.len() {
                    action == KeyAction::OpenBook { index: i }
                } else {
                    action is Nothing
                },
                None => action is Nothing,
            }
        },
        _ => *new_s == *old_s && *new_l == *old_l && action is Nothing,
    }
}

/// The reader after searching for `query`: the matches found, scrolled to the current one.
pub open spec fn search_effect(state: &AppState, old_r: &Reader, new_r: &Reader, query: Seq<char>) -> bool {
    &&& new_r.search.query@ == query
    &&& new_r.search.matches@ == search_results(state, old_r.current_chapter, query)
    &&& new_r.scroll_offset == jump_target(
        new_r.search.matches@,
        old_r.search.current_match_index,
        old_r.scroll_offset,
        old_r.last_known_height,
    )
    &&& new_r.search.active == old_r.search.active
    &&& new_r.search.current_match_index == old_r.search.current_match_index
    &&& new_r.current_chapter == old_r.current_chapter
    &&& new_r.last_known_height == old_r.last_known_height
}

/// Searching for `query` is free of overflow.
pub open spec fn search_allowed(state: &AppState, r: &Reader, query: Seq<char>) -> bool {
    jump_allowed(
        search_results(state, r.current_chapter, query),
        r.search.current_match_index,
        r.scroll_offset,
        r.last_known_height,
    )
}

/// The reader after moving to match `index` (when there are matches).
pub open spec fn match_move_effect(old_r: &Reader, new_r: &Reader, index: usize) -> bool {
    if old_r.search.matches@.len() == 0 {
        *new_r == *old_r
    } else {
        &&& new_r.search.current_match_index == index
        &&& new_r.scroll_offset == jump_target(
            old_r.search.matches@,
            index,
            old_r.scroll_offset,
            old_r.last_known_height,
        )
        &&& new_r.search.matches == old_r.search.matches
        &&& new_r.search.query == old_r.search.query
        &&& new_r.search.active == old_r.search.active
        &&& new_r.current_chapter == old_r.current_chapter
        &&& new_r.last_known_height == old_r.last_known_height
    }
}

/// The search is emptied and left open (`active`) or closed.
pub open spec fn search_reset_effect(old_r: &Reader, new_r: &Reader, active: bool) -> bool {
    &&& new_r.search.active == active
    &&& new_r.search.query@.len() == 0
    &&& new_r.search.matches@.len() == 0
    &&& new_r.search.current_match_index == 0
    &&& new_r.scroll_offset == old_r.scroll_offset
    &&& new_r.current_chapter == old_r.current_chapter
    &&& new_r.last_known_height == old_r.last_known_height
}

/// A key typed while a search is open is allowed.
pub open spec fn search_key_allowed(state: &AppState, key: Key, r: &Reader) -> bool {
    let q = r.search.query@;
    let n = r.search.matches@.len();
    match key {
        Key::Enter => q.len() > 0 ==> search_allowed(state, r, q),
        Key::Backspace => q.len() > 0 ==> search_allowed(state, r, q.drop_last()),
        Key::Char('n') => n > 0 ==> r.search.current_match_index < usize::MAX && jump_allowed(
            r.search.matches@,
            next_match_index(r.search.current_match_index, n),
            r.scroll_offset,
            r.last_known_height,
        ),
        Key::Char('p') => n > 0 ==> jump_allowed(
            r.search.matches@,
            previous_match_index(r.search.current_match_index, n),
            r.scroll_offset,
            r.last_known_height,
        ),
        Key::Char(c) => search_allowed(state, r, q.push(c)),
        _ => true,
    }
}

/// What a key does while a search is open: edit and rerun the query, move between
/// matches, or close the search.
pub open spec fn search_key_effect(state: &AppState, key: Key, old_r: &Reader, new_r: &Reader) -> bool {
    let q = old_r.search.query@;
    let n = old_r.search.matches@.len();
    match key {
        Key::Enter => if q.len() > 0 {
            search_effect(state, old_r, new_r, q)
        } else {
            *new_r == *old_r
        },
        Key::Esc => search_reset_effect(old_r, new_r, false),
        Key::Backspace => if q.len() > 0 {
            search_effect(state, old_r, new_r, q.drop_last())
        } else {
            *new_r == *old_r
        },
        Key::Char('n') => match_move_effect(
            old_r,
            new_r,
            next_match_index(old_r.search.current_match_index, n),
        ),
        Key::Char('p') => match_move_effect(
            old_r,
            new_r,
            previous_match_index(old_r.search.current_match_index, n),
        ),
        Key::Char(c) => search_effect(state, old_r, new_r, q.push(c)),
        _ => *new_r == *old_r,
    }
}

/// Handles a key while a search is open.
pub fn handle_search_key(state: &AppState, key: Key, reader: &mut Reader)
    requires
        search_key_allowed(state, key, old(reader)),
    ensures
        search_key_effect(state, key, old(reader), final(reader)),
{
    match key {
        Key::Enter => {
            if !reader.search.query.as_str().is_empty() {
                reader.update_search(state);
            }
        },
        Key::Esc => {
            reader.cancel_search();
        },
        Key::Backspace => {
            if !reader.search.query.as_str().is_empty() {
                reader.search.query.pop();
                reader.update_search(state);
            }
        },
        Key::Char('n') => {
            reader.next_match(state);
        },
        Key::Char('p') => {
            reader.previous_match(state);
        },
        Key::Char(c) => {
            reader.search.query.push(c);
            reader.update_search(state);
        },
        _ => {},
    }
}

/// The library's selected book, when the selection is on one.
pub open spec fn selected_book_index(library: &Library) -> Option<usize> {
    match library.list_state.selection {
        Some(i) => if i < library.book_files@.len() {
            Some(i)
        } else {
            None
        },
        None => None,
    }
}

/// A key pressed in the reader (no search open) is allowed.
pub open spec fn reader_key_allowed(state: &AppState, key: Key, r: &Reader) -> bool {
    match key {
        Key::Down | Key::Char('j') | Key::PageDown => scroll_down_allowed(
            state,
            r.current_chapter,
            r.scroll_offset,
            r.last_known_height,
        ),
        Key::Char('n') => state.current_book matches Some(book) ==> book.content.chapters@.len() > 0,
        _ => true,
    }
}

/// The reader's position moved to (chapter, offset); nothing else about it changed.
pub open spec fn position_effect(old_r: &Reader, new_r: &Reader, target: (usize, usize)) -> bool {
    &&& (new_r.current_chapter, new_r.scroll_offset) == target
    &&& new_r.search == old_r.search
    &&& new_r.last_known_height == old_r.last_known_height
}

/// Adding a bookmark for (path, chapter, offset): none is added when one for that
/// place exists; otherwise it is appended and the settings are to be saved.
pub open spec fn bookmark_add_effect(
    old_set: Settings,
    new_set: Settings,
    path: Seq<char>,
    chapter: usize,
    offset: usize,
    title: Seq<char>,
    action: KeyAction,
) -> bool {
    if old_set.spec_has_bookmark_at(path, chapter, offset) {
        new_set.bookmarks@ == old_set.bookmarks@ && action is Nothing
    } else {
        &&& new_set.bookmarks@.len() == old_set.bookmarks@.len() + 1
        &&& new_set.bookmarks@.drop_last() == old_set.bookmarks@
        &&& new_set.bookmarks@.last().spec_fields() == (path, chapter, offset, title)
        &&& action is SaveSettings
    }
}

/// What a key does in the reader when no search is open.
pub open spec fn reader_key_effect(
    old_s: &AppState,
    new_s: &AppState,
    key: Key,
    library: &Library,
    old_r: &Reader,
    new_r: &Reader,
    old_b: &BookmarksView,
    new_b: &BookmarksView,
    action: KeyAction,
) -> bool {
    let reader_same = *new_r == *old_r;
    let marks_same = *new_b == *old_b;
    match key {
        Key::Char('q') => quit_effect(old_s, new_s) && reader_same && marks_same && action is Nothing,
        Key::Char('h') => switch_effect(old_s, new_s, crate::app::state::View::Help) && reader_same
            && marks_same && action is Nothing,
        Key::Char('l') => switch_effect(old_s, new_s, crate::app::state::View::Library)
            && reader_same && marks_same && action is Nothing,
        Key::Char('m') => {
            &&& switch_effect(old_s, new_s, crate::app::state::View::Bookmarks)
            &&& reader_same
            &&& if old_s.settings.bookmarks@.len() > 0 && old_b.list_state.selection is None {
                new_b.list_state.selection == Some(0usize)
            } else {
                marks_same
            }
            &&& action is Nothing
        },
        Key::Char('/') => *new_s == *old_s && search_reset_effect(old_r, new_r, true) && marks_same
            && action is Nothing,
        Key::Char('b') => {
            &&& reader_same
            &&& marks_same
            &&& new_s.current_view == old_s.current_view
            &&& new_s.should_quit == old_s.should_quit
            &&& new_s.current_book == old_s.current_book
            &&& new_s.current_charset == old_s.current_charset
            &&& new_s.settings.theme == old_s.settings.theme
            &&& new_s.settings.scrolling == old_s.settings.scrolling
            &&& match (old_s.current_book, selected_book_index(library)) {
                (Some(book), Some(i)) => bookmark_add_effect(
                    old_s.settings,
                    new_s.settings,
                    library.book_files@[i as int]@,
                    old_r.current_chapter,
                    old_r.scroll_offset,
                    book.metadata.title@,
                    action,
                ),
                _ => new_s.settings == old_s.settings && action is Nothing,
            }
        },
        Key::Down | Key::Char('j') | Key::PageDown => *new_s == *old_s && position_effect(
            old_r,
            new_r,
            scroll_down_target(old_s, old_r.current_chapter, old_r.scroll_offset, old_r.last_known_height),
        ) && marks_same && action is Nothing,
        Key::Up | Key::Char('k') | Key::PageUp => *new_s == *old_s && position_effect(
            old_r,
            new_r,
            scroll_up_target(old_s, old_r.current_chapter, old_r.scroll_offset, old_r.last_known_height),
        ) && marks_same && action is Nothing,
        Key::Char('n') => *new_s == *old_s && position_effect(
            old_r,
            new_r,
            next_chapter_target(old_s, old_r.current_chapter, old_r.scroll_offset),
        ) && marks_same && action is Nothing,
        Key::Char('p') => *new_s == *old_s && position_effect(
            old_r,
            new_r,
            previous_chapter_target(old_r.current_chapter, old_r.scroll_offset),
        ) && marks_same && action is Nothing,
        Key::Char('c') => {
            &&& new_s.current_charset == next_charset(old_s.current_charset)
            &&& new_s.current_view == old_s.current_view
            &&& new_s.should_quit == old_s.should_quit
            &&& new_s.current_book == old_s.current_book
            &&& new_s.settings == old_s.settings
            &&& reader_same
            &&& marks_same
            &&& match selected_book_index(library) {
                Some(i) => action == KeyAction::ReloadTxtBook { index: i },
                None => action is Nothing,
            }
        },
        _ => *new_s == *old_s && reader_same && marks_same && action is Nothing,
    }
}

/// Handles a key in the reader when no search is open.
pub fn handle_reader_key(
    state: &mut AppState,
    key: Key,
    library: &Library,
    reader: &mut Reader,
    bookmarks: &mut BookmarksView,
) -> (action: KeyAction)
    requires
        reader_key_allowed(old(state), key, old(reader)),
    ensures
        reader_key_effect(
            old(state),
            final(state),
            key,
            library,
            old(reader),
            final(reader),
            old(bookmarks),
            final(bookmarks),
            action,
        ),
{
    match key {
        Key::Char('q') => {
            state.quit();
            KeyAction::Nothing
        },
        Key::Char('h') => {
            state.switch_view(crate::app::state::View::Help);
            KeyAction::Nothing
        },
        Key::Char('l') => {
            state.switch_view(crate::app::state::View::Library);
            KeyAction::Nothing
        },
        Key::Char('m') => {
            state.switch_view(crate::app::state::View::Bookmarks);
            if state.settings.bookmarks.len() > 0 && bookmarks.list_state.selected().is_none() {
                bookmarks.list_state.select(Some(0));
            }
            KeyAction::Nothing
        },
        Key::Char('/') => {
            reader.start_search();
            KeyAction::Nothing
        },
        Key::Char('b') => {
            match &state.current_book {
                Some(book) => match library.get_selected_book() {
                    Some(selected_path) => {
                        let bookmark = Bookmark {
                            book_path: selected_path.clone(),
                            chapter: reader.current_chapter,
                            scroll_offset: reader.scroll_offset,
                            title: book.metadata.title.clone(),
                        };
                        let ghost path = bookmark.book_path@;
                        let ghost before = state.settings.bookmarks@;
                        let ghost old_settings = state.settings;
                        let ghost chapter = reader.current_chapter;
                        let ghost offset = reader.scroll_offset;
                        let added = state.settings.add_bookmark(bookmark);
                        proof {
                            if added {
                                assert(state.settings.bookmarks@.drop_last() =~= before);
                            }
                        }
                        let action = if added {
                            KeyAction::SaveSettings
                        } else {
                            KeyAction::Nothing
                        };
                        assert(bookmark_add_effect(
                            old_settings,
                            state.settings,
                            path,
                            chapter,
                            offset,
                            book.metadata.title@,
                            action,
                        ));
                        action
                    },
                    None => KeyAction::Nothing,
                },
                None => KeyAction::Nothing,
            }
        },
        Key::Down | Key::Char('j') | Key::PageDown => {
            reader.scroll_down(state);
            KeyAction::Nothing
        },
        Key::Up | Key::Char('k') | Key::PageUp => {
            reader.scroll_up(state);
            KeyAction::Nothing
        },
        Key::Char('n') => {
            reader.next_chapter(state);
            KeyAction::Nothing
        },
        Key::Char('p') => {
            reader.previous_chapter();
            KeyAction::Nothing
        },
        Key::Char('c') => {
            state.cycle_charset();
            match library.list_state.selected() {
                Some(i) => if i < library.book_files.len() {
                    KeyAction::ReloadTxtBook { index: i }
                } else {
                    KeyAction::Nothing
                },
                None => KeyAction::Nothing,
            }
        },
        _ => KeyAction::Nothing,
    }
}

/// Handles a key in the library view.
pub fn handle_library_key(state: &mut AppState, key: Key, library: &mut Library) -> (action: KeyAction)
    ensures
        library_key_effect(old(state), final(state), key, old(library), final(library), action),
{
    match key {
        Key::Char('q') => {
            state.quit();
            KeyAction::Nothing
        },
        Key::Char('h') => {
            state.switch_view(crate::app::state::View::Help);
            KeyAction::Nothing
        },
        Key::Down | Key::Char('j') => {
            library.next();
            KeyAction::Nothing
        },
        Key::Up | Key::Char('k') => {
            library.previous();
            KeyAction::Nothing
        },
        Key::Enter => {
            match library.list_state.selected() {
                Some(i) => if i < library.book_files.len() {
                    KeyAction::OpenBook { index: i }
                } else {
                    KeyAction::Nothing
                },
                None => KeyAction::Nothing,
            }
        },
        _ => KeyAction::Nothing,
    }
}

/// What a key does in the help view.
pub open spec fn help_key_effect(old_s: &AppState, new_s: &AppState, key: Key) -> bool {
    match key {
        Key::Char('q') => quit_effect(old_s, new_s),
        Key::Char('l') | Key::Esc => switch_effect(old_s, new_s, crate::app::state::View::Library),
        Key::Char('r') => switch_effect(old_s, new_s, crate::app::state::View::Reader),
        _ => *new_s == *old_s,
    }
}

/// Handles a key in the help view.
pub fn handle_help_key(state: &mut AppState, key: Key)
    ensures
        help_key_effect(old(state), final(state), key),
{
    match key {
        Key::Char('q') => state.quit(),
        Key::Char('l') | Key::Esc => state.switch_view(crate::app::state::View::Library),
        Key::Char('r') => state.switch_view(crate::app::state::View::Reader),
        _ => {},
    }
}

/// Deleting in the bookmarks view needs the selection, if any, on a bookmark.
pub open spec fn bookmarks_key_allowed(state: &AppState, key: Key, b: &BookmarksView) -> bool {
    (key == Key::Char('d') || key == Key::Delete) ==> (b.list_state.selection matches Some(i)
        ==> i < state.settings.bookmarks@.len())
}

/// What a key does in the bookmarks view.
pub open spec fn bookmarks_key_effect(
    old_s: &AppState,
    new_s: &AppState,
    key: Key,
    old_b: &BookmarksView,
    new_b: &BookmarksView,
    action: KeyAction,
) -> bool {
    let n = old_s.settings.bookmarks@.len();
    match key {
        Key::Char('q') => quit_effect(old_s, new_s) && *new_b == *old_b && action is Nothing,
        Key::Char('h') => switch_effect(old_s, new_s, crate::app::state::View::Help) && *new_b
            == *old_b && action is Nothing,
        Key::Char('l') => switch_effect(old_s, new_s, crate::app::state::View::Library) && *new_b
            == *old_b && action is Nothing,
        Key::Char('r') | Key::Esc => switch_effect(old_s, new_s, crate::app::state::View::Reader)
            && *new_b == *old_b && action is Nothing,
        Key::Down | Key::Char('j') => *new_s == *old_s && action is Nothing && if n > 0 {
            new_b.list_state.selection == Some(next_row(old_b.list_state.selection, n))
        } else {
            *new_b == *old_b
        },
        Key::Up | Key::Char('k') => *new_s == *old_s && action is Nothing && if n > 0 {
            new_b.list_state.selection == Some(previous_row(old_b.list_state.selection, n))
        } else {
            *new_b == *old_b
        },
        Key::Enter => {
            &&& *new_s == *old_s
            &&& *new_b == *old_b
            &&& match old_b.list_state.selection {
                Some(i) => if i < n {
                    action matches KeyAction::OpenBookmark { bookmark } && bookmark.spec_fields()
                        == old_s.settings.bookmarks@[i as int].spec_fields()
                } else {
                    action is Nothing
                },
                None => action is Nothing,
            }
        },
        Key::Char('d') | Key::Delete => {
            &&& new_s.settings.theme == old_s.settings.theme
            &&& new_s.settings.scrolling == old_s.settings.scrolling
            &&& new_s.should_quit == old_s.should_quit
            &&& new_s.current_book == old_s.current_book
            &&& new_s.current_charset == old_s.current_charset
            &&& match old_b.list_state.selection {
                Some(i) => {
                    &&& new_s.settings.bookmarks@ == old_s.settings.bookmarks@.remove(i as int)
                    &&& new_b.list_state.selection == selection_after_delete(
                        i,
                        new_s.settings.bookmarks@.len(),
                    )
                    &&& action is SaveSettings
                },
                None => {
                    &&& new_s.settings.bookmarks@ == old_s.settings.bookmarks@
                    &&& *new_b == *old_b
                    &&& action is Nothing
                },
            }
            &&& new_s.current_view == if new_s.settings.bookmarks@.len() == 0 {
                crate::app::state::View::Library
            } else {
                old_s.current_view
            }
        },
        _ => *new_s == *old_s && *new_b == *old_b && action is Nothing,
    }
}

/// Handles a key in the bookmarks view.
pub fn handle_bookmarks_key(state: &mut AppState, key: Key, bookmarks: &mut BookmarksView) -> (action: KeyAction)
    requires
        bookmarks_key_allowed(old(state), key, old(bookmarks)),
    ensures
        bookmarks_key_effect(old(state), final(state), key, old(bookmarks), final(bookmarks), action),
{
    match key {
        Key::Char('q') => {
            state.quit();
            KeyAction::Nothing
        },
        Key::Char('h') => {
            state.switch_view(crate::app::state::View::Help);
            KeyAction::Nothing
        },
        Key::Char('l') => {
            state.switch_view(crate::app::state::View::Library);
            KeyAction::Nothing
        },
        Key::Char('r') | Key::Esc => {
            state.switch_view(crate::app::state::View::Reader);
            KeyAction::Nothing
        },
        Key::Down | Key::Char('j') => {
            bookmarks.next(state);
            KeyAction::Nothing
        },
        Key::Up | Key::Char('k') => {
            bookmarks.previous(state);
            KeyAction::Nothing
        },
        Key::Enter => {
            match bookmarks.get_selected_bookmark(state) {
                Some(bookmark) => KeyAction::OpenBookmark { bookmark },
                None => KeyAction::Nothing,
            }
        },
        Key::Char('d') | Key::Delete => {
            let deleted = bookmarks.delete_selected(state);
            if state.settings.bookmarks.len() == 0 {
                state.switch_view(crate::app::state::View::Library);
            }
            if deleted {
                KeyAction::SaveSettings
            } else {
                KeyAction::Nothing
            }
        },
        _ => KeyAction::Nothing,
    }
}

/// A key can be handled in the current view.
pub open spec fn key_allowed(state: &AppState, key: Key, reader: &Reader, bookmarks: &BookmarksView) -> bool {
    match state.current_view {
        crate::app::state::View::Reader => if reader.search.active {
            search_key_allowed(state, key, reader)
        } else {
            reader_key_allowed(state, key, reader)
        },
        crate::app::state::View::Bookmarks => bookmarks_key_allowed(state, key, bookmarks),
        _ => true,
    }
}

/// Handles a key press in whatever view is current, and says what the caller is to do.
pub fn handle_key_event(
    state: &mut AppState,
    key: Key,
    library: &mut Library,
    reader: &mut Reader,
    bookmarks: &mut BookmarksView,
) -> (action: KeyAction)
    requires
        key_allowed(old(state), key, old(reader), old(bookmarks)),
    ensures
        match old(state).current_view {
            crate::app::state::View::Library => {
                &&& library_key_effect(old(state), final(state), key, old(library), final(library), action)
                &&& *final(reader) == *old(reader)
                &&& *final(bookmarks) == *old(bookmarks)
            },
            crate::app::state::View::Reader => {
                &&& *final(library) == *old(library)
                &&& if old(reader).search.active {
                    &&& search_key_effect(old(state), key, old(reader), final(reader))
                    &&& *final(state) == *old(state)
                    &&& *final(bookmarks) == *old(bookmarks)
                    &&& action is Nothing
                } else {
                    reader_key_effect(
                        old(state),
                        final(state),
                        key,
                        old(library),
                        old(reader),
                        final(reader),
                        old(bookmarks),
                        final(bookmarks),
                        action,
                    )
                }
            },
            crate::app::state::View::Help => {
                &&& help_key_effect(old(state), final(state), key)
                &&& *final(library) == *old(library)
                &&& *final(reader) == *old(reader)
                &&& *final(bookmarks) == *old(bookmarks)
                &&& action is Nothing
            },
            crate::app::state::View::Bookmarks => {
                &&& bookmarks_key_effect(
                    old(state),
                    final(state),
                    key,
                    old(bookmarks),
                    final(bookmarks),
                    action,
                )
                &&& *final(library) == *old(library)
                &&& *final(reader) == *old(reader)
            },
        },
{
    match state.current_view {
        crate::app::state::View::Library => handle_library_key(state, key, library),
        crate::app::state::View::Reader => {
            if reader.search.active {
                handle_search_key(state, key, reader);
                KeyAction::Nothing
            } else {
                handle_reader_key(state, key, library, reader, bookmarks)
            }
        },
        crate::app::state::View::Help => {
            handle_help_key(state, key);
            KeyAction::Nothing
        },
        crate::app::state::View::Bookmarks => handle_bookmarks_key(state, key, bookmarks),
    }
}

fn jump_allowed_exec(matches: &Vec<(usize, usize)>, index: usize, offset: usize, height: u16) -> (ok: bool)
    ensures
        ok == jump_allowed(matches@, index, offset, height),
{
    if index < matches.len() && matches[index].0 >= offset {
        offset.checked_add(Reader::calculate_lines_per_page(height)).is_some()
    } else {
        true
    }
}

fn search_allowed_exec(state: &AppState, r: &Reader, query: &str) -> (ok: bool)
    ensures
        ok == search_allowed(state, r, query@),
{
    let matches: Vec<(usize, usize)> = if query.is_empty() {
        Vec::new()
    } else {
        match &state.current_book {
            Some(book) => match book.content.current_text(r.current_chapter) {
                Some(text) => crate::utils::text::search_text(text, query),
                None => Vec::new(),
            },
            None => Vec::new(),
        }
    };
    assert(matches@ =~= search_results(state, r.current_chapter, query@));
    jump_allowed_exec(&matches, r.search.current_match_index, r.scroll_offset, r.last_known_height)
}

fn scroll_down_allowed_exec(state: &AppState, r: &Reader) -> (ok: bool)
    ensures
        ok == scroll_down_allowed(state, r.current_chapter, r.scroll_offset, r.last_known_height),
{
    let lpp = Reader::calculate_lines_per_page(r.last_known_height);
    if r.scroll_offset.checked_add(lpp).is_none() {
        return false;
    }
    match &state.current_book {
        Some(book) => match book.content.current_text(r.current_chapter) {
            Some(text) => {
                let total = crate::utils::text::line_count(text);
                if r.scroll_offset + lpp >= total {
                    book.content.chapter_count() > 0
                } else {
                    true
                }
            },
            None => true,
        },
        None => true,
    }
}

/// Whether `handle_key_event` can be asked to handle the key: no position or
/// offset arithmetic overflows, no chapter count is taken of a book without chapters,
/// and no bookmark past the list is deleted.
pub fn key_is_allowed(state: &AppState, key: Key, reader: &Reader, bookmarks: &BookmarksView) -> (ok: bool)
    ensures
        ok == key_allowed(state, key, reader, bookmarks),
{
    match state.current_view {
        crate::app::state::View::Reader => {
            if reader.search.active {
                let q = reader.search.query.as_str();
                let n = reader.search.matches.len();
                match key {
                    Key::Enter => q.is_empty() || search_allowed_exec(state, reader, q),
                    Key::Backspace => {
                        if q.is_empty() {
                            true
                        } else {
                            let mut shorter = reader.search.query.clone();
                            shorter.pop();
                            search_allowed_exec(state, reader, shorter.as_str())
                        }
                    },
                    Key::Char('n') => {
                        if n == 0 {
                            true
                        } else if reader.search.current_match_index == usize::MAX {
                            false
                        } else {
                            let next = (reader.search.current_match_index + 1) % n;
                            jump_allowed_exec(
                                &reader.search.matches,
                                next,
                                reader.scroll_offset,
                                reader.last_known_height,
                            )
                        }
                    },
                    Key::Char('p') => {
                        if n == 0 {
                            true
                        } else {
                            let prev = if reader.search.current_match_index == 0 {
                                n - 1
                            } else {
                                reader.search.current_match_index - 1
                            };
                            jump_allowed_exec(
                                &reader.search.matches,
                                prev,
                                reader.scroll_offset,
                                reader.last_known_height,
                            )
                        }
                    },
                    Key::Char(c) => {
                        let mut longer = reader.search.query.clone();
                        longer.push(c);
                        search_allowed_exec(state, reader, longer.as_str())
                    },
                    _ => true,
                }
            } else {
                match key {
                    Key::Down | Key::Char('j') | Key::PageDown => scroll_down_allowed_exec(state, reader),
                    Key::Char('n') => match &state.current_book {
                        Some(book) => book.content.chapter_count() > 0,
                        None => true,
                    },
                    _ => true,
                }
            }
        },
        crate::app::state::View::Bookmarks => {
            match key {
                Key::Char('d') | Key::Delete => match bookmarks.list_state.selected() {
                    Some(i) => i < state.settings.bookmarks.len(),
                    None => true,
                },
                _ => true,
            }
        },
        _ => true,
    }
}

/// Handles a key press when `key_is_allowed` holds (see `handle_key_event`); otherwise
/// changes nothing and gives `None`.
pub fn try_handle_key_event(
    state: &mut AppState,
    key: Key,
    library: &mut Library,
    reader: &mut Reader,
    bookmarks: &mut BookmarksView,
) -> (action: Option<KeyAction>)
    ensures
        action is None <==> !key_allowed(old(state), key, old(reader), old(bookmarks)),
        action is None ==> *final(state) == *old(state) && *final(library) == *old(library)
            && *final(reader) == *old(reader) && *final(bookmarks) == *old(bookmarks),
        action matches Some(a) ==> match old(state).current_view {
            crate::app::state::View::Library => {
                &&& library_key_effect(old(state), final(state), key, old(library), final(library), a)
                &&& *final(reader) == *old(reader)
                &&& *final(bookmarks) == *old(bookmarks)
            },
            crate::app::state::View::Reader => {
                &&& *final(library) == *old(library)
                &&& if old(reader).search.active {
                    &&& search_key_effect(old(state), key, old(reader), final(reader))
                    &&& *final(state) == *old(state)
                    &&& *final(bookmarks) == *old(bookmarks)
                    &&& a is Nothing
                } else {
                    reader_key_effect(
                        old(state),
                        final(state),
                        key,
                        old(library),
                        old(reader),
                        final(reader),
                        old(bookmarks),
                        final(bookmarks),
                        a,
                    )
                }
            },
            crate::app::state::View::Help => {
                &&& help_key_effect(old(state), final(state), key)
                &&& *final(library) == *old(library)
                &&& *final(reader) == *old(reader)
                &&& *final(bookmarks) == *old(bookmarks)
                &&& a is Nothing
            },
            crate::app::state::View::Bookmarks => {
                &&& bookmarks_key_effect(old(state), final(state), key, old(bookmarks), final(bookmarks), a)
                &&& *final(library) == *old(library)
                &&& *final(reader) == *old(reader)
            },
        },
{
    if key_is_allowed(state, key, reader, bookmarks) {
        Some(handle_key_event(state, key, library, reader, bookmarks))
    } else {
        None
    }
}

/// In the reader with no search open, Down, 'j' and PageDown go forward, never back:
/// a page further into the chapter, or to the top of the next chapter, or nowhere at
/// the end of the book.
pub proof fn law_down_keys_move_forward(
    old_s: &AppState,
    new_s: &AppState,
    key: Key,
    library: &Library,
    old_r: &Reader,
    new_r: &Reader,
    old_b: &BookmarksView,
    new_b: &BookmarksView,
    action: KeyAction,
)
    requires
        key == Key::Down || key == Key::Char('j') || key == Key::PageDown,
        reader_key_allowed(old_s, key, old_r),
        reader_key_effect(old_s, new_s, key, library, old_r, new_r, old_b, new_b, action),
    ensures
        new_r.current_chapter == old_r.current_chapter ==> new_r.scroll_offset == old_r.scroll_offset
            || new_r.scroll_offset == old_r.scroll_offset + lines_per_page(old_r.last_known_height),
        new_r.current_chapter != old_r.current_chapter ==> new_r.current_chapter
            == old_r.current_chapter + 1 && new_r.scroll_offset == 0,
        *new_s == *old_s,
        action is Nothing,
{
    match old_s.current_book {
        Some(book) => {
            assert(book.content.chapters.len() == book.content.chapters@.len());
        },
        None => {},
    }
}

/// In the reader with no search open, Up, 'k' and PageUp go back, never forward: up
/// to a page towards the chapter's top, or into the previous chapter from the top of
/// this one, or nowhere at the top of the book.
pub proof fn law_up_keys_move_back(
    old_s: &AppState,
    new_s: &AppState,
    key: Key,
    library: &Library,
    old_r: &Reader,
    new_r: &Reader,
    old_b: &BookmarksView,
    new_b: &BookmarksView,
    action: KeyAction,
)
    requires
        key == Key::Up || key == Key::Char('k') || key == Key::PageUp,
        reader_key_effect(old_s, new_s, key, library, old_r, new_r, old_b, new_b, action),
    ensures
        new_r.current_chapter == old_r.current_chapter ==> new_r.scroll_offset <= old_r.scroll_offset
            && old_r.scroll_offset <= new_r.scroll_offset + lines_per_page(old_r.last_known_height),
        new_r.current_chapter != old_r.current_chapter ==> old_r.scroll_offset == 0
            && new_r.current_chapter + 1 == old_r.current_chapter,
        *new_s == *old_s,
        action is Nothing,
{
}

} // verus!
