//! The parser interface, the formats it recognises by file extension, and the
//! factory that picks a parser for a format.

use vstd::prelude::*;

use crate::book::content::Book;
use crate::book::formats::epub::{epub_parse_result, EpubParser};
use crate::book::formats::txt::{txt_parse_result, Charset, TxtParser};
use crate::utils::text::{lowercase_of, str_equal, to_lowercase};

verus! {

broadcast use vstd::string::group_string_axioms;

/// Why a book could not be read.
#[derive(Debug, Clone, Copy, PartialEq, Eq, Structural)]
pub enum ParseError {
    /// The content is not a readable ZIP archive.
    InvalidArchive,
    /// An archive entry that the book needs could not be read.
    EntryUnreadable,
    /// The chapters' byte lengths do not fit in a `usize` when summed.
    TooLarge,
}

pub trait BookParser {
    /// The contents this parser can be handed.
    spec fn accepts(&self, content: Seq<u8>) -> bool;

    fn parse(&self, content: &[u8]) -> Result<Book, ParseError>
        requires
            self.accepts(content@),
    ;
}

#[derive(Debug, Clone, Copy, PartialEq, Eq, Structural)]
pub enum ParserType {
    Txt,
    Epub,
    Mobi,
}

impl ParserType {
    /// The format named by a file extension, compared lower-cased.
    pub open spec fn spec_from_extension(extension: Seq<char>) -> Option<ParserType> {
        let lower = lowercase_of(extension);
        if lower == "txt"@ {
            Some(ParserType::Txt)
        } else if lower == "epub"@ {
            Some(ParserType::Epub)
        } else if lower == "mobi"@ {
            Some(ParserType::Mobi)
        } else {
            None
        }
    }

    pub fn from_extension(extension: &str) -> (res: Option<Self>)
        ensures
            res == Self::spec_from_extension(extension@),
    {
        let lower = to_lowercase(extension);
        if str_equal(lower.as_str(), "txt") {
            Some(Self::Txt)
        } else if str_equal(lower.as_str(), "epub") {
            Some(Self::Epub)
        } else if str_equal(lower.as_str(), "mobi") {
            Some(Self::Mobi)
        } else {
            None
        }
    }
}

/// A parser for one of the supported formats.
#[derive(Debug)]
pub enum AnyParser {
    Txt(TxtParser),
    Epub(EpubParser),
}

impl BookParser for AnyParser {
    open spec fn accepts(&self, content: Seq<u8>) -> bool {
        match self {
            AnyParser::Txt(p) => p.accepts(content),
            AnyParser::Epub(p) => p.accepts(content),
        }
    }

    /// Parses with the parser held (see `TxtParser::parse` and `EpubParser::parse`).
    fn parse(&self, content: &[u8]) -> (res: Result<Book, ParseError>)
        ensures
            match self {
                AnyParser::Txt(p) => txt_parse_result(p.spec_charset(), content@, res),
                AnyParser::Epub(_) => epub_parse_result(content@, res),
            },
    {
        match self {
            AnyParser::Txt(p) => p.parse(content),
            AnyParser::Epub(p) => p.parse(content),
        }
    }
}

pub struct BookParserFactory;

impl BookParserFactory {
    /// A parser for the format; MOBI has none.
    pub fn create_parser(parser_type: ParserType) -> (parser: AnyParser)
        requires
            parser_type != ParserType::Mobi,
        ensures
            parser_type == ParserType::Txt ==> (parser matches AnyParser::Txt(p)
                && p.spec_charset() == Charset::Utf8),
            parser_type == ParserType::Epub ==> parser is Epub,
    {
        match parser_type {
            ParserType::Txt => AnyParser::Txt(TxtParser::new()),
            _ => AnyParser::Epub(EpubParser::new()),
        }
    }

    pub fn create_txt_parser_with_charset(charset: Charset) -> (parser: AnyParser)
        ensures
            parser matches AnyParser::Txt(p) && p.spec_charset() == charset,
    {
        AnyParser::Txt(TxtParser::with_charset(charset))
    }
}

} // verus!
