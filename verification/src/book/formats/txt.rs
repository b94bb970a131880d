//! Plain-text books: decoding in a chosen character set and paging.

use vstd::prelude::*;

use crate::book::content::{Book, BookContent, BookMetadata};
use crate::book::parser::{BookParser, ParseError};
use crate::utils::text::{
    chunk_pages_exec, join_lines, join_range, lemma_chunk_pages_join, lemma_join_split,
    lemma_split_lines_nonempty, split_lines, split_lines_exec, text_pages,
};

verus! {

broadcast use vstd::string::group_string_axioms;

/// The number of lines in each page that a plain-text book is divided into.
pub const TXT_LINES_PER_PAGE: usize = 50;

#[derive(Debug, Clone, Copy, PartialEq, Eq, Structural)]
pub enum Charset {
    Utf8,
    Gb2312,
    Gbk,
    Gb18030,
}

/// The decoders that text can be read with.
#[derive(Debug, Clone, Copy, PartialEq, Eq, Structural)]
pub enum EncodingKind {
    Utf8,
    Gbk,
    Gb18030,
}

/// Every byte is ASCII.
pub open spec fn is_ascii_bytes(bytes: Seq<u8>) -> bool {
    forall|i: int| 0 <= i < bytes.len() ==> bytes[i] < 0x80
}

/// ASCII bytes read as characters.
pub open spec fn ascii_chars(bytes: Seq<u8>) -> Seq<char> {
    Seq::new(bytes.len(), |i: int| bytes[i] as char)
}

/// The bytes start with the UTF-8 byte order mark.
pub open spec fn has_utf8_bom(bytes: Seq<u8>) -> bool {
    bytes.len() >= 3 && bytes[0] == 0xEF && bytes[1] == 0xBB && bytes[2] == 0xBF
}

/// What `encoding_rs::Encoding::decode` returns for the encoding and the bytes:
/// the decoded text and whether malformed sequences were replaced.
pub uninterp spec fn decoded_text(encoding: EncodingKind, bytes: Seq<u8>) -> (Seq<char>, bool);

/// `encoding_rs::Encoding::decode` with the encoding that `encoding` names (BOM
/// sniffing, malformed sequences replaced). Its source borrows the input unchanged,
/// without errors, when the input is all ASCII, and, for UTF-8, when it is valid
/// UTF-8 (with no BOM to sniff). It panics when its output-buffer size calculation
/// overflows, which the length bound rules out. Nothing else is stated of the decoding.
#[verifier::external_body]
fn decode_bytes(encoding: EncodingKind, bytes: &[u8]) -> (res: (String, bool))
    requires
        bytes@.len() <= usize::MAX / 4,
    ensures
        (res.0@, res.1) == decoded_text(encoding, bytes@),
        is_ascii_bytes(bytes@) ==> res.0@ == ascii_chars(bytes@) && !res.1,
        encoding == EncodingKind::Utf8 && vstd::utf8::valid_utf8(bytes@) && !has_utf8_bom(bytes@)
            ==> res.0@ == vstd::utf8::decode_utf8(bytes@) && !res.1,
{
    let enc = match encoding {
        EncodingKind::Utf8 => encoding_rs::UTF_8,
        EncodingKind::Gbk => encoding_rs::GBK,
        EncodingKind::Gb18030 => encoding_rs::GB18030,
    };
    let (text, _, had_errors) = enc.decode(bytes);
    (text.into_owned(), had_errors)
}

impl Charset {
    pub open spec fn spec_name(self) -> Seq<char> {
        match self {
            Charset::Utf8 => "UTF-8"@,
            Charset::Gb2312 => "GB2312"@,
            Charset::Gbk => "GBK"@,
            Charset::Gb18030 => "GB18030"@,
        }
    }

    /// The decoder used for the charset: GB2312 is read as its superset GBK.
    pub open spec fn spec_encoding(self) -> EncodingKind {
        match self {
            Charset::Utf8 => EncodingKind::Utf8,
            Charset::Gb2312 => EncodingKind::Gbk,
            Charset::Gbk => EncodingKind::Gbk,
            Charset::Gb18030 => EncodingKind::Gb18030,
        }
    }

    pub fn name(&self) -> (res: &'static str)
        ensures
            res@ == self.spec_name(),
    {
        match self {
            Charset::Utf8 => "UTF-8",
            Charset::Gb2312 => "GB2312",
            Charset::Gbk => "GBK",
            Charset::Gb18030 => "GB18030",
        }
    }

    pub fn encoding_label(&self) -> (res: EncodingKind)
        ensures
            res == self.spec_encoding(),
    {
        match self {
            Charset::Utf8 => EncodingKind::Utf8,
            Charset::Gb2312 => EncodingKind::Gbk,
            Charset::Gbk => EncodingKind::Gbk,
            Charset::Gb18030 => EncodingKind::Gb18030,
        }
    }
}

#[derive(Debug)]
pub struct TxtParser {
    charset: Charset,
}

/// The text of a plain-text file read in a charset.
pub open spec fn txt_text(charset: Charset, bytes: Seq<u8>) -> Seq<char> {
    decoded_text(charset.spec_encoding(), bytes).0
}

/// What reading plain text gives: never an error; a book titled "Unknown Title" by
/// "Unknown Author" in format "txt", whose single chapter is the decoded text, which
/// is also its pages joined back with newlines. ASCII content reads as itself in every
/// charset, and valid UTF-8 without a byte-order mark reads as itself in UTF-8.
pub open spec fn txt_parse_result(charset: Charset, content: Seq<u8>, res: Result<Book, ParseError>) -> bool {
    match res {
        Ok(book) => {
            &&& book.metadata.title@ == "Unknown Title"@
            &&& book.metadata.author@ == "Unknown Author"@
            &&& book.metadata.format@ == "txt"@
            &&& book.content.full_text@ == join_lines(
                text_pages(txt_text(charset, content), TXT_LINES_PER_PAGE as nat),
            )
            &&& book.content.full_text@ == txt_text(charset, content)
            &&& book.content.chapters.deep_view() == seq![book.content.full_text@]
            &&& book.content.chapter_offsets@ == seq![0usize]
            &&& is_ascii_bytes(content) ==> book.content.full_text@ == ascii_chars(content)
            &&& charset == Charset::Utf8 && vstd::utf8::valid_utf8(content) && !has_utf8_bom(
                content,
            ) ==> book.content.full_text@ == vstd::utf8::decode_utf8(content)
        },
        Err(_) => false,
    }
}

impl TxtParser {
    pub closed spec fn spec_charset(&self) -> Charset {
        self.charset
    }

    pub fn new() -> (res: Self)
        ensures
            res.spec_charset() == Charset::Utf8,
    {
        Self { charset: Charset::Utf8 }
    }

    pub fn with_charset(charset: Charset) -> (res: Self)
        ensures
            res.spec_charset() == charset,
    {
        Self { charset }
    }

    pub fn charset(&self) -> (res: Charset)
        ensures
            res == self.spec_charset(),
    {
        self.charset
    }

    pub fn set_charset(&mut self, charset: Charset)
        ensures
            final(self).spec_charset() == charset,
    {
        self.charset = charset;
    }

    /// The charset assumed for any content: UTF-8.
    pub fn detect_charset(_content: &[u8]) -> (res: Charset)
        ensures
            res == Charset::Utf8,
    {
        Charset::Utf8
    }

    fn decode_content(&self, content: &[u8]) -> (text: String)
        requires
            content@.len() <= usize::MAX / 4,
        ensures
            text@ == txt_text(self.spec_charset(), content@),
            is_ascii_bytes(content@) ==> text@ == ascii_chars(content@),
            self.spec_charset() == Charset::Utf8 && vstd::utf8::valid_utf8(content@)
                && !has_utf8_bom(content@) ==> text@ == vstd::utf8::decode_utf8(content@),
    {
        let (text, _had_errors) = decode_bytes(self.charset.encoding_label(), content);
        text
    }

    /// The text divided into pages of `TXT_LINES_PER_PAGE` lines.
    pub fn split_into_pages(&self, text: &str) -> (pages: Vec<String>)
        ensures
            pages.deep_view() == text_pages(text@, TXT_LINES_PER_PAGE as nat),
    {
        let lines = split_lines_exec(text);
        chunk_pages_exec(&lines, TXT_LINES_PER_PAGE)
    }
}

impl BookParser for TxtParser {
    open spec fn accepts(&self, content: Seq<u8>) -> bool {
        content.len() <= usize::MAX / 4
    }

    /// Reads the content in the parser's charset. The book is titled "Unknown Title"
    /// by "Unknown Author" in format "txt", and its single chapter is the decoded
    /// text: its pages joined back with newlines.
    fn parse(&self, content: &[u8]) -> (res: Result<Book, ParseError>)
        ensures
            txt_parse_result(self.spec_charset(), content@, res),
    {
        let text = self.decode_content(content);
        let metadata = BookMetadata {
            title: String::from_str("Unknown Title"),
            author: String::from_str("Unknown Author"),
            format: String::from_str("txt"),
        };
        let pages = self.split_into_pages(text.as_str());
        let joined = join_range(&pages, 0, pages.len());
        proof {
            assert(pages.deep_view().subrange(0, pages.len() as int) =~= pages.deep_view());
            lemma_split_lines_nonempty(text@);
            lemma_chunk_pages_join(split_lines(text@), TXT_LINES_PER_PAGE as nat);
            lemma_join_split(text@);
        }
        let content = BookContent::new(joined);
        Ok(Book::new(metadata, content))
    }
}

} // verus!
