use std::io::{Cursor, Write};

use lostower::book::content::BookMetadata;
use lostower::book::formats::epub::{lookup_manifest, EpubParser};
use lostower::book::parser::{BookParser, ParseError};

const CONTAINER: &str = r#"<?xml version="1.0"?>
<container version="1.0" xmlns="urn:oasis:names:tc:opendocument:xmlns:container">
  <rootfiles>
    <rootfile full-path="OEBPS/content.opf" media-type="application/oebps-package+xml"/>
  </rootfiles>
</container>"#;

const OPF: &str = r#"<?xml version="1.0"?>
<package xmlns="http://www.idpf.org/2007/opf" xmlns:dc="http://purl.org/dc/elements/1.1/" version="2.0">
  <metadata>
    <dc:title>  A Tale  </dc:title>
    <dc:creator>Some Author</dc:creator>
  </metadata>
  <manifest>
    <item id="c1" href="one.xhtml" media-type="application/xhtml+xml"/>
    <item id="c2" href="two.html"/>
    <item id="css" href="style.css" media-type="text/css"/>
  </manifest>
  <spine>
    <itemref idref="c2"/>
    <itemref idref="c1"/>
    <itemref idref="css"/>
  </spine>
</package>"#;

fn xhtml(body: &str) -> String {
    format!("<html><body><p>{}</p></body></html>", body)
}

fn build_epub(entries: &[(&str, String)]) -> Vec<u8> {
    let mut writer = zip::ZipWriter::new(Cursor::new(Vec::new()));
    let options = zip::write::SimpleFileOptions::default()
        .compression_method(zip::CompressionMethod::Stored);
    for (name, data) in entries {
        writer.start_file(*name, options).unwrap();
        writer.write_all(data.as_bytes()).unwrap();
    }
    writer.finish().unwrap().into_inner()
}

#[test]
fn opf_path_comes_from_container() {
    assert_eq!(
        EpubParser::extract_opf_path_from_bytes(CONTAINER.as_bytes()),
        Some("OEBPS/content.opf".to_string())
    );
    assert_eq!(EpubParser::extract_opf_path_from_bytes(b"<rootfile full-path=\"outside.opf\"/>"), None);
    assert_eq!(EpubParser::extract_opf_path_from_bytes(b"not xml at all"), None);
}

#[test]
fn opf_metadata_is_trimmed() {
    let mut metadata = BookMetadata::new(
        "Unknown Title".to_string(),
        "Unknown Author".to_string(),
        "epub".to_string(),
    );
    EpubParser::parse_opf_from_bytes(OPF.as_bytes(), &mut metadata);
    assert_eq!(metadata.title, "A Tale");
    assert_eq!(metadata.author, "Some Author");
    assert_eq!(metadata.format, "epub");
    let mut blank = BookMetadata::new("Keep".to_string(), "Me".to_string(), "epub".to_string());
    EpubParser::parse_opf_from_bytes(b"<metadata><title>   </title></metadata>", &mut blank);
    assert_eq!(blank.title, "Keep");
}

#[test]
fn spine_and_manifest_keep_html_items() {
    let (spine, manifest) = EpubParser::parse_spine_and_manifest_from_bytes(OPF.as_bytes());
    assert_eq!(spine, vec!["c2", "c1", "css"]);
    assert_eq!(manifest.len(), 2);
    assert_eq!(lookup_manifest(&manifest, "c1"), Some("one.xhtml".to_string()));
    assert_eq!(lookup_manifest(&manifest, "c2"), Some("two.html".to_string()));
    assert_eq!(lookup_manifest(&manifest, "css"), None);
}

#[test]
fn epub_chapters_follow_the_spine() {
    let bytes = build_epub(&[
        ("META-INF/container.xml", CONTAINER.to_string()),
        ("OEBPS/content.opf", OPF.to_string()),
        ("OEBPS/one.xhtml", xhtml("First chapter text")),
        ("OEBPS/two.html", xhtml("Second chapter text")),
    ]);
    let book = EpubParser::new().parse(&bytes).expect("valid epub");
    assert_eq!(book.metadata.title, "A Tale");
    assert_eq!(book.metadata.author, "Some Author");
    assert_eq!(book.metadata.format, "epub");
    assert_eq!(book.content.chapters.len(), 2);
    assert!(book.content.chapters[0].contains("Second chapter text"));
    assert!(book.content.chapters[1].contains("First chapter text"));
    assert!(!book.content.chapters[0].contains("<p>"));
    assert_eq!(book.content.full_text, book.content.chapters.join("\n\n"));
    assert_eq!(book.content.chapter_offsets, vec![0, book.content.chapters[0].len()]);
}

#[test]
fn epub_without_container_reads_every_html_entry() {
    let bytes = build_epub(&[
        ("a.XHTML", xhtml("Alpha")),
        ("notes.txt", "ignored".to_string()),
        ("b.htm", xhtml("Beta")),
    ]);
    let book = EpubParser::new().parse(&bytes).expect("valid zip");
    assert_eq!(book.metadata.title, "Unknown Title");
    assert_eq!(book.metadata.author, "Unknown Author");
    assert_eq!(book.content.chapters.len(), 2);
    assert!(book.content.chapters[0].contains("Alpha"));
    assert!(book.content.chapters[1].contains("Beta"));
}

#[test]
fn epub_with_one_chapter_keeps_a_single_chapter() {
    let bytes = build_epub(&[("only.html", xhtml("Lonely"))]);
    let book = EpubParser::new().parse(&bytes).expect("valid zip");
    assert_eq!(book.content.chapters.len(), 1);
    assert_eq!(book.content.chapters[0], book.content.full_text);
    assert!(book.content.full_text.contains("Lonely"));
}

#[test]
fn empty_archive_gives_an_empty_book() {
    let bytes = build_epub(&[]);
    let book = EpubParser::new().parse(&bytes).expect("valid zip");
    assert_eq!(book.content.full_text, "");
    assert_eq!(book.content.chapters, vec![String::new()]);
}

#[test]
fn non_zip_bytes_are_an_invalid_archive() {
    match EpubParser::new().parse(b"plain text, not a zip") {
        Err(e) => assert_eq!(e, ParseError::InvalidArchive),
        Ok(_) => panic!("expected an error"),
    }
}

#[test]
fn corrupt_container_is_an_unreadable_entry() {
    let mut bytes = build_epub(&[
        ("META-INF/container.xml", CONTAINER.to_string()),
        ("OEBPS/content.opf", OPF.to_string()),
    ]);
    // Change one byte of the stored container document so that its checksum fails.
    let needle = b"rootfiles";
    let at = bytes.windows(needle.len()).position(|w| w == needle).unwrap();
    bytes[at] = b'R';
    match EpubParser::new().parse(&bytes) {
        Err(e) => assert_eq!(e, ParseError::EntryUnreadable),
        Ok(_) => panic!("expected an error"),
    }
}

#[test]
fn missing_spine_entries_fall_back_to_every_html_entry() {
    let opf = OPF.replace("one.xhtml", "gone.xhtml").replace("two.html", "lost.html");
    let bytes = build_epub(&[
        ("META-INF/container.xml", CONTAINER.to_string()),
        ("OEBPS/content.opf", opf),
        ("OEBPS/extra.xhtml", xhtml("Fallback text")),
    ]);
    let book = EpubParser::new().parse(&bytes).expect("valid epub");
    assert_eq!(book.metadata.title, "A Tale");
    assert_eq!(book.content.chapters.len(), 1);
    assert!(book.content.full_text.contains("Fallback text"));
}
