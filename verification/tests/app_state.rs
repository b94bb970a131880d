use lostower::app::settings::{Bookmark, ScrollingSettings, Settings, ThemeColor, ThemeSettings};
use lostower::app::state::{AppState, View};
use lostower::book::content::{Book, BookContent, BookMetadata};
use lostower::book::formats::txt::Charset;
use lostower::tui::components::scrollbar::Scrollbar;
use lostower::tui::components::status_bar::StatusBar;
use lostower::tui::ui::help::Help;
use lostower::tui::ui::reader::Reader;

fn bookmark(path: &str, chapter: usize, offset: usize) -> Bookmark {
    Bookmark { book_path: path.to_string(), chapter, scroll_offset: offset, title: "t".to_string() }
}

#[test]
fn new_state_is_in_the_library() {
    let state = AppState::new();
    assert_eq!(state.current_view, View::Library);
    assert!(!state.should_quit);
    assert!(state.current_book.is_none());
    assert_eq!(state.current_charset, Charset::Utf8);
    assert!(state.settings.bookmarks.is_empty());
}

#[test]
fn charset_cycles_through_four() {
    let mut state = AppState::new();
    let mut seen = Vec::new();
    for _ in 0..4 {
        state.cycle_charset();
        seen.push(state.current_charset);
    }
    assert_eq!(seen, vec![Charset::Gb2312, Charset::Gbk, Charset::Gb18030, Charset::Utf8]);
}

#[test]
fn views_and_quitting() {
    let mut state = AppState::new();
    state.switch_view(View::Help);
    assert_eq!(state.current_view, View::Help);
    state.quit();
    assert!(state.should_quit);
    assert_eq!(state.current_view, View::Help);
}

#[test]
fn loading_a_book_shows_the_reader() {
    let mut state = AppState::new();
    let book = Book::new(
        BookMetadata::new("T".to_string(), "A".to_string(), "txt".to_string()),
        BookContent::new("x".to_string()),
    );
    state.load_book(book);
    assert_eq!(state.current_view, View::Reader);
    assert_eq!(state.current_book.as_ref().unwrap().metadata.title, "T");
}

#[test]
fn default_settings() {
    let theme = ThemeSettings::default();
    assert_eq!(theme.background_color, "black");
    assert_eq!(theme.foreground_color, "white");
    assert_eq!(theme.status_bar_fg, "yellow");
    assert_eq!(theme.status_bar_bg, "darkgray");
    assert_eq!(theme.scrollbar_track, "darkgray");
    assert_eq!(theme.scrollbar_thumb, "white");
    let scrolling = ScrollingSettings::default();
    assert_eq!(scrolling.scroll_speed_lines, 1);
    assert!(scrolling.scroll_by_page);
    assert!(Settings::default().bookmarks.is_empty());
}

#[test]
fn colours_parse_ignoring_case() {
    let theme = ThemeSettings::default();
    assert_eq!(theme.parse_color("Black"), ThemeColor::Black);
    assert_eq!(theme.parse_color("DARKGRAY"), ThemeColor::DarkGray);
    assert_eq!(theme.parse_color("lightgray"), ThemeColor::Gray);
    assert_eq!(theme.parse_color("LightYellow"), ThemeColor::LightYellow);
    assert_eq!(theme.parse_color("cyan"), ThemeColor::Cyan);
    assert_eq!(theme.parse_color("chartreuse"), ThemeColor::White);
}

#[test]
fn bookmarks_are_not_duplicated() {
    let mut settings = Settings::default();
    assert!(settings.add_bookmark(bookmark("/a.txt", 0, 10)));
    assert!(!settings.add_bookmark(bookmark("/a.txt", 0, 10)));
    assert!(settings.add_bookmark(bookmark("/a.txt", 1, 10)));
    assert!(settings.has_bookmark_at("/a.txt", 1, 10));
    assert!(!settings.has_bookmark_at("/b.txt", 1, 10));
    assert_eq!(settings.bookmarks.len(), 2);
}

#[test]
fn status_text() {
    let mut state = AppState::new();
    let reader = Reader::new();
    assert_eq!(StatusBar::status_text(&state, &reader), "No book loaded");
    state.load_book(Book::new(
        BookMetadata::new("Title".to_string(), "Writer".to_string(), "epub".to_string()),
        BookContent::new_with_chapters("ab".to_string(), vec!["a".to_string(), "b".to_string()]),
    ));
    assert_eq!(StatusBar::status_text(&state, &reader), "Title - Writer | Chapter 1/2");
    state.load_book(Book::new(
        BookMetadata::new("Title".to_string(), "Writer".to_string(), "txt".to_string()),
        BookContent::new("ab".to_string()),
    ));
    assert_eq!(StatusBar::status_text(&state, &reader), "Title - Writer | Single Chapter");
}

#[test]
fn scrollbar_shows_only_for_long_text() {
    let mut state = AppState::new();
    let mut reader = Reader::new();
    reader.last_known_height = 7; // five lines a page
    assert_eq!(Scrollbar::metrics(&state, &reader), None);
    state.load_book(Book::new(
        BookMetadata::new("T".to_string(), "A".to_string(), "txt".to_string()),
        BookContent::new("1\n2\n3\n4\n5".to_string()),
    ));
    assert_eq!(Scrollbar::metrics(&state, &reader), None);
    state.load_book(Book::new(
        BookMetadata::new("T".to_string(), "A".to_string(), "txt".to_string()),
        BookContent::new("1\n2\n3\n4\n5\n6\n7\n8".to_string()),
    ));
    reader.scroll_offset = 2;
    assert_eq!(Scrollbar::metrics(&state, &reader), Some((3, 2)));
}

#[test]
fn help_names_the_current_charset() {
    let mut state = AppState::new();
    state.cycle_charset();
    let lines = Help::lines(&state);
    assert_eq!(lines.len(), 19);
    assert_eq!(lines[0], "Key Bindings:");
    assert_eq!(lines[16], "Current Charset: GB2312");
    assert!(lines[9].contains("UTF-8 → GB2312 → GBK → GB18030"));
}
