use lostower::utils::path::{file_extension, file_name_without_extension, is_book_extension};

#[test]
fn stems_and_extensions() {
    assert_eq!(file_name_without_extension("/books/archive.tar.gz"), "archive.tar");
    assert_eq!(file_name_without_extension(".hidden"), ".hidden");
    assert_eq!(file_name_without_extension("/"), "Unknown");
    assert_eq!(file_extension("/books/Novel.TXT"), "txt");
    assert_eq!(file_extension("/books/noext"), "");
    assert_eq!(file_name_without_extension(".."), "Unknown");
    assert_eq!(file_extension("dir/x.Mobi"), "mobi");
}

#[test]
fn book_extensions() {
    assert!(is_book_extension("txt"));
    assert!(is_book_extension("EPUB"));
    assert!(is_book_extension("mobi"));
    assert!(!is_book_extension("pdf"));
    assert!(!is_book_extension(""));
}
