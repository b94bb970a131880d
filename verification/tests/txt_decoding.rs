use lostower::book::formats::txt::{Charset, EncodingKind, TxtParser};
use lostower::book::parser::{BookParser, BookParserFactory, ParserType};

#[test]
fn gbk_bytes_decode_in_gbk() {
    // "中文" in GBK.
    let bytes = [0xD6u8, 0xD0, 0xCE, 0xC4];
    let book = TxtParser::with_charset(Charset::Gbk).parse(&bytes).unwrap();
    assert_eq!(book.content.full_text, "中文");
    let book = TxtParser::with_charset(Charset::Gb2312).parse(&bytes).unwrap();
    assert_eq!(book.content.full_text, "中文");
}

#[test]
fn gbk_bytes_in_utf8_are_replaced() {
    let bytes = [0xD6u8, 0xD0];
    let book = TxtParser::new().parse(&bytes).unwrap();
    assert_ne!(book.content.full_text, "中");
    assert!(book.content.full_text.contains('\u{FFFD}'));
}

#[test]
fn utf8_text_is_kept_with_one_chapter() {
    let book = TxtParser::new().parse("héllo\nwörld".as_bytes()).unwrap();
    assert_eq!(book.content.full_text, "héllo\nwörld");
    assert_eq!(book.content.chapters, vec!["héllo\nwörld".to_string()]);
    assert_eq!(book.content.chapter_offsets, vec![0]);
    assert_eq!(book.metadata.title, "Unknown Title");
    assert_eq!(book.metadata.author, "Unknown Author");
}

#[test]
fn split_into_pages_has_fifty_lines_each() {
    let parser = TxtParser::new();
    let text: Vec<String> = (0..120).map(|i| i.to_string()).collect();
    let joined = text.join("\n");
    let pages = parser.split_into_pages(&joined);
    assert_eq!(pages.len(), 3);
    assert_eq!(pages[0].split('\n').count(), 50);
    assert_eq!(pages[2].split('\n').count(), 20);
    assert_eq!(pages.join("\n"), joined);
}

#[test]
fn charset_settings() {
    let mut parser = TxtParser::new();
    assert_eq!(parser.charset(), Charset::Utf8);
    parser.set_charset(Charset::Gb18030);
    assert_eq!(parser.charset(), Charset::Gb18030);
    assert_eq!(TxtParser::detect_charset(b"anything"), Charset::Utf8);
    assert_eq!(Charset::Gb2312.encoding_label(), EncodingKind::Gbk);
    assert_eq!(Charset::Gb18030.encoding_label(), EncodingKind::Gb18030);
    assert_eq!(Charset::Utf8.encoding_label(), EncodingKind::Utf8);
}

#[test]
fn parser_types_from_extensions() {
    assert_eq!(ParserType::from_extension("txt"), Some(ParserType::Txt));
    assert_eq!(ParserType::from_extension("EPUB"), Some(ParserType::Epub));
    assert_eq!(ParserType::from_extension("Mobi"), Some(ParserType::Mobi));
    assert_eq!(ParserType::from_extension("pdf"), None);
    assert_eq!(ParserType::from_extension(""), None);
}

#[test]
fn factory_parsers_parse_their_format() {
    let parser = BookParserFactory::create_parser(ParserType::Txt);
    assert_eq!(parser.parse(b"x").unwrap().metadata.format, "txt");
    let parser = BookParserFactory::create_txt_parser_with_charset(Charset::Gbk);
    assert_eq!(parser.parse(&[0xD6u8, 0xD0]).unwrap().content.full_text, "中");
    let parser = BookParserFactory::create_parser(ParserType::Epub);
    assert!(parser.parse(b"not a zip").is_err());
}
