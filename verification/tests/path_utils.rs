use lostower::utils::path::{file_extension, file_name_without_extension};

#[test]
fn test_file_name_without_extension() {
    let path = String::from("test_book.txt");
    assert_eq!(file_name_without_extension(&path), "test_book");

    let path = String::from("document.epub");
    assert_eq!(file_name_without_extension(&path), "document");
}

#[test]
fn test_file_extension() {
    let path = String::from("test.txt");
    assert_eq!(file_extension(&path), "txt");

    let path = String::from("book.EPUB");
    assert_eq!(file_extension(&path), "epub");
}
