use lostower::app::state::AppState;
use lostower::book::content::{Book, BookContent, BookMetadata};
use lostower::tui::ui::reader::{Reader, SegmentStyle};

fn book_with_chapters(chapters: &[&str]) -> Book {
    let chapters: Vec<String> = chapters.iter().map(|s| s.to_string()).collect();
    let full = chapters.join("\n\n");
    Book::new(
        BookMetadata::new("T".to_string(), "A".to_string(), "epub".to_string()),
        BookContent::new_with_chapters(full, chapters),
    )
}

fn state_with(book: Book) -> AppState {
    let mut state = AppState::new();
    state.load_book(book);
    state
}

fn lines(n: usize) -> String {
    (0..n).map(|i| format!("line {}", i)).collect::<Vec<_>>().join("\n")
}

#[test]
fn lines_per_page_leaves_room_for_borders() {
    assert_eq!(Reader::calculate_lines_per_page(52), 50);
    assert_eq!(Reader::calculate_lines_per_page(3), 1);
    assert_eq!(Reader::calculate_lines_per_page(2), 1);
    assert_eq!(Reader::calculate_lines_per_page(0), 1);
}

#[test]
fn scrolling_down_pages_then_moves_to_next_chapter() {
    let a = lines(25);
    let state = state_with(book_with_chapters(&[&a, "b"]));
    let mut reader = Reader::new();
    reader.last_known_height = 12; // ten lines a page
    reader.scroll_down(&state);
    assert_eq!((reader.current_chapter, reader.scroll_offset), (0, 10));
    reader.scroll_down(&state);
    assert_eq!((reader.current_chapter, reader.scroll_offset), (0, 20));
    reader.scroll_down(&state);
    assert_eq!((reader.current_chapter, reader.scroll_offset), (1, 0));
    // At the end of the last chapter nothing moves.
    reader.scroll_down(&state);
    assert_eq!((reader.current_chapter, reader.scroll_offset), (1, 0));
}

#[test]
fn scrolling_up_returns_and_goes_to_previous_chapter_end() {
    let a = lines(25);
    let state = state_with(book_with_chapters(&[&a, "b"]));
    let mut reader = Reader::new();
    reader.last_known_height = 12;
    reader.scroll_down(&state);
    reader.scroll_up(&state);
    assert_eq!((reader.current_chapter, reader.scroll_offset), (0, 0));
    reader.current_chapter = 1;
    reader.scroll_up(&state);
    assert_eq!((reader.current_chapter, reader.scroll_offset), (0, 15));
    reader.scroll_offset = 4;
    reader.scroll_up(&state);
    assert_eq!(reader.scroll_offset, 0);
}

#[test]
fn scrolling_without_a_book_moves_by_a_page() {
    let state = AppState::new();
    let mut reader = Reader::new();
    reader.scroll_down(&state);
    assert_eq!(reader.scroll_offset, 50);
}

#[test]
fn chapter_navigation() {
    let state = state_with(book_with_chapters(&["a", "b", "c"]));
    let mut reader = Reader::new();
    reader.scroll_offset = 3;
    reader.next_chapter(&state);
    assert_eq!((reader.current_chapter, reader.scroll_offset), (1, 0));
    reader.next_chapter(&state);
    reader.next_chapter(&state);
    assert_eq!(reader.current_chapter, 2);
    reader.previous_chapter();
    assert_eq!(reader.current_chapter, 1);
    reader.previous_chapter();
    reader.previous_chapter();
    assert_eq!(reader.current_chapter, 0);
}

#[test]
fn search_is_case_insensitive_and_non_overlapping() {
    let state = state_with(book_with_chapters(&["Abab aBAB\nnone here\nab", "other"]));
    let mut reader = Reader::new();
    reader.start_search();
    assert!(reader.search.active);
    reader.search.query = "AB".to_string();
    reader.update_search(&state);
    assert_eq!(
        reader.search.matches,
        vec![(0, 0), (0, 2), (0, 5), (0, 7), (2, 0)]
    );
    reader.search.query = "aba".to_string();
    reader.update_search(&state);
    assert_eq!(reader.search.matches, vec![(0, 0), (0, 5)]);
}

#[test]
fn empty_query_finds_nothing() {
    let state = state_with(book_with_chapters(&["abc", "def"]));
    let mut reader = Reader::new();
    reader.start_search();
    reader.update_search(&state);
    assert!(reader.search.matches.is_empty());
}

#[test]
fn match_navigation_wraps_and_scrolls_into_view() {
    let text = format!("{}\nneedle\n{}\nneedle", lines(30), lines(30));
    let state = state_with(book_with_chapters(&[&text, "x"]));
    let mut reader = Reader::new();
    reader.last_known_height = 12; // ten lines a page
    reader.start_search();
    reader.search.query = "NEEDLE".to_string();
    reader.update_search(&state);
    assert_eq!(reader.search.matches, vec![(30, 0), (61, 0)]);
    // The first match is centred: line 30 less half a page.
    assert_eq!(reader.scroll_offset, 25);
    reader.next_match(&state);
    assert_eq!(reader.search.current_match_index, 1);
    assert_eq!(reader.scroll_offset, 56);
    reader.next_match(&state);
    assert_eq!(reader.search.current_match_index, 0);
    reader.previous_match(&state);
    assert_eq!(reader.search.current_match_index, 1);
    reader.previous_match(&state);
    assert_eq!(reader.search.current_match_index, 0);
    reader.cancel_search();
    assert!(!reader.search.active);
    assert!(reader.search.query.is_empty());
    assert!(reader.search.matches.is_empty());
}

#[test]
fn line_segments_highlight_matches() {
    let state = state_with(book_with_chapters(&["xaby ab", "other"]));
    let mut reader = Reader::new();
    reader.start_search();
    reader.search.query = "ab".to_string();
    reader.update_search(&state);
    let segments = reader.line_segments(0, 7);
    let parts: Vec<(usize, usize, SegmentStyle)> =
        segments.iter().map(|s| (s.start, s.end, s.style)).collect();
    assert_eq!(
        parts,
        vec![
            (0, 1, SegmentStyle::Plain),
            (1, 3, SegmentStyle::CurrentMatch),
            (3, 5, SegmentStyle::Plain),
            (5, 7, SegmentStyle::Match),
        ]
    );
    let other_line = reader.line_segments(1, 4);
    assert_eq!(other_line.len(), 1);
    assert_eq!((other_line[0].start, other_line[0].end), (0, 4));
    reader.cancel_search();
    assert_eq!(reader.line_segments(0, 7).len(), 1);
}

#[test]
fn reader_title_shows_the_open_search() {
    let state = state_with(book_with_chapters(&["cat cat", "dog"]));
    let mut reader = Reader::new();
    assert_eq!(reader.title(), "Reader");
    reader.start_search();
    reader.search.query = "cat".to_string();
    reader.update_search(&state);
    assert_eq!(reader.title(), "Reader - Search: \"cat\" (2 matches)");
    reader.cancel_search();
    assert_eq!(reader.title(), "Reader");
}
