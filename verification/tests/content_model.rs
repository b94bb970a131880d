use lostower::book::content::{Book, BookContent, BookMetadata};

fn chapters(parts: &[&str]) -> Vec<String> {
    parts.iter().map(|s| s.to_string()).collect()
}

#[test]
fn new_content_is_one_chapter_at_offset_zero() {
    let content = BookContent::new("abc\ndef".to_string());
    assert_eq!(content.chapter_count(), 1);
    assert_eq!(content.get_chapter(0), Some("abc\ndef"));
    assert_eq!(content.get_chapter(1), None);
    assert_eq!(content.chapter_offsets, vec![0]);
}

#[test]
fn chapter_offsets_count_bytes() {
    // "é" is two bytes in UTF-8, so the second chapter starts at byte 3.
    let content = BookContent::new_with_chapters("xx".to_string(), chapters(&["aé", "bcd", "z"]));
    assert_eq!(content.chapter_offsets, vec![0, 3, 6]);
    assert_eq!(content.chapter_count(), 3);
}

#[test]
fn chapter_index_for_offset_finds_containing_chapter() {
    let content = BookContent::new_with_chapters(String::new(), chapters(&["abc", "", "defg", "h"]));
    assert_eq!(content.chapter_offsets, vec![0, 3, 3, 7]);
    assert_eq!(content.chapter_index_for_offset(0), 0);
    assert_eq!(content.chapter_index_for_offset(2), 0);
    // An empty chapter shares its offset with the next one; the later one wins.
    assert_eq!(content.chapter_index_for_offset(3), 2);
    assert_eq!(content.chapter_index_for_offset(6), 2);
    assert_eq!(content.chapter_index_for_offset(7), 3);
    assert_eq!(content.chapter_index_for_offset(1000), 3);
}

#[test]
fn chapter_index_for_offset_without_chapters_is_zero() {
    let content = BookContent::new_with_chapters(String::new(), Vec::new());
    assert_eq!(content.chapter_index_for_offset(5), 0);
}

#[test]
fn chapter_boundaries_use_next_start_or_text_length() {
    let content =
        BookContent::new_with_chapters("abcdefgh".to_string(), chapters(&["abc", "defgh"]));
    assert_eq!(content.chapter_boundaries(0), (0, 3));
    assert_eq!(content.chapter_boundaries(1), (3, 8));
    assert_eq!(content.chapter_boundaries(5), (0, 8));
}

#[test]
fn pages_for_height_groups_lines() {
    let content = BookContent::new("1\n2\n3\n4\n5".to_string());
    assert_eq!(content.pages_for_height(2), vec!["1\n2", "3\n4", "5"]);
    assert_eq!(content.page_count_for_height(2), 3);
    assert_eq!(content.page_count_for_height(5), 1);
    assert_eq!(content.page_count_for_height(1), 5);
    assert_eq!(content.get_page_for_height(1, 2), Some("3\n4".to_string()));
    assert_eq!(content.get_page_for_height(3, 2), None);
}

#[test]
fn pages_rejoin_to_full_text() {
    let text = "a\n\nb\nc\n\nd\n".to_string();
    let content = BookContent::new(text.clone());
    for height in 1..8 {
        let pages = content.pages_for_height(height);
        assert_eq!(pages.join("\n"), text);
        assert_eq!(pages.len(), content.page_count_for_height(height));
    }
}

#[test]
fn empty_text_has_one_empty_page() {
    let content = BookContent::new(String::new());
    assert_eq!(content.pages_for_height(3), vec![String::new()]);
    assert_eq!(content.page_count(), 1);
    assert_eq!(content.get_page(0), Some(String::new()));
    assert_eq!(content.get_page(1), None);
}

#[test]
fn chapter_pages() {
    let content =
        BookContent::new_with_chapters(String::new(), chapters(&["a\nb\nc", "d"]));
    assert_eq!(content.pages_for_chapter(0, 2), vec!["a\nb", "c"]);
    assert_eq!(content.page_count_for_chapter(0, 2), 2);
    assert_eq!(content.pages_for_chapter(1, 2), vec!["d"]);
    assert!(content.pages_for_chapter(2, 2).is_empty());
    assert_eq!(content.page_count_for_chapter(2, 2), 0);
}

#[test]
fn describe_reports_bytes_and_chapters() {
    let content = BookContent::new_with_chapters("héllo".to_string(), chapters(&["a", "b"]));
    assert_eq!(content.describe(), "6 characters, 2 chapters");
    assert_eq!(BookContent::new(String::new()).describe(), "0 characters, 1 chapters");
}

#[test]
fn current_text_depends_on_chapter_count() {
    let single = BookContent::new("whole".to_string());
    assert_eq!(single.current_text(7), Some("whole"));
    let multi = BookContent::new_with_chapters("ab".to_string(), chapters(&["a", "b"]));
    assert_eq!(multi.current_text(1), Some("b"));
    assert_eq!(multi.current_text(2), None);
}

#[test]
fn book_and_metadata_constructors_keep_fields() {
    let metadata = BookMetadata::new("T".to_string(), "A".to_string(), "txt".to_string());
    let book = Book::new(metadata, BookContent::new("x".to_string()));
    assert_eq!(book.metadata.title, "T");
    assert_eq!(book.metadata.author, "A");
    assert_eq!(book.metadata.format, "txt");
    assert_eq!(book.content.full_text, "x");
}

#[test]
fn chapters_that_fit_in_memory() {
    assert!(BookContent::chapters_fit(&chapters(&["a", "bc", ""])));
    assert!(BookContent::chapters_fit(&Vec::new()));
}
