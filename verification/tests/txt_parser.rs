use lostower::book::formats::txt::{Charset, TxtParser};
use lostower::book::parser::BookParser;

#[test]
fn test_txt_parser_basic_utf8() {
    let parser = TxtParser::new();
    let test_content = b"Line 1\nLine 2\nLine 3";
    let book = parser.parse(test_content).expect("Failed to parse TXT content");

    assert_eq!(book.metadata.format, "txt");
    assert!(book.content.page_count() > 0);
}

#[test]
fn test_txt_parser_split_pages() {
    let parser = TxtParser::new();
    let mut test_content = Vec::new();
    for i in 1..=100 {
        test_content.push(format!("Line {}", i));
    }
    let joined_content = test_content.join("\n");
    let test_content_bytes = joined_content.as_bytes();

    let book = parser.parse(test_content_bytes).expect("Failed to parse TXT content");
    assert_eq!(book.content.page_count(), 2); // 100 lines / 50 lines per page
}

#[test]
fn test_txt_parser_empty_content() {
    let parser = TxtParser::new();
    let test_content = b"";
    let book = parser.parse(test_content).expect("Failed to parse TXT content");

    assert_eq!(book.content.page_count(), 1); // Should have at least one page
    assert!(book.content.get_page(0).unwrap().is_empty());
}

#[test]
fn test_charset_names() {
    assert_eq!(Charset::Utf8.name(), "UTF-8");
    assert_eq!(Charset::Gb2312.name(), "GB2312");
    assert_eq!(Charset::Gbk.name(), "GBK");
    assert_eq!(Charset::Gb18030.name(), "GB18030");
}

#[test]
fn test_txt_parser_with_charset() {
    let parser = TxtParser::with_charset(Charset::Gbk);
    assert_eq!(parser.charset(), Charset::Gbk);

    let test_content = b"Test content";
    let book = parser.parse(test_content).expect("Failed to parse with GBK charset");
    assert_eq!(book.metadata.format, "txt");
}
