use lostower::book::formats::epub::EpubParser;

#[test]
fn test_epub_parser_basic() {
    let _parser = EpubParser::new();
    assert!(true);
}
