//! The application state: the current view, the loaded book, the settings and the
//! charset that plain-text books are read in.

use vstd::prelude::*;

use crate::app::settings::Settings;
use crate::book::content::Book;
use crate::book::formats::txt::Charset;

verus! {

#[derive(Debug, Clone, Copy, PartialEq, Eq, Structural)]
pub enum View {
    Library,
    Reader,
    Help,
    Bookmarks,
}

pub struct AppState {
    pub current_view: View,
    pub should_quit: bool,
    pub current_book: Option<Book>,
    pub settings: Settings,
    pub current_charset: Charset,
}

/// The charset after `c` in the cycle UTF-8 → GB2312 → GBK → GB18030 → UTF-8.
pub open spec fn next_charset(c: Charset) -> Charset {
    match c {
        Charset::Utf8 => Charset::Gb2312,
        Charset::Gb2312 => Charset::Gbk,
        Charset::Gbk => Charset::Gb18030,
        Charset::Gb18030 => Charset::Utf8,
    }
}

impl AppState {
    /// The library view, nothing loaded, default settings, UTF-8.
    pub fn new() -> (res: Self)
        ensures
            res.current_view == View::Library,
            !res.should_quit,
            res.current_book is None,
            res.settings.is_default(),
            res.current_charset == Charset::Utf8,
    {
        Self {
            current_view: View::Library,
            should_quit: false,
            current_book: None,
            settings: Settings::default(),
            current_charset: Charset::Utf8,
        }
    }

    pub fn switch_view(&mut self, view: View)
        ensures
            final(self).current_view == view,
            final(self).should_quit == old(self).should_quit,
            final(self).current_book == old(self).current_book,
            final(self).settings == old(self).settings,
            final(self).current_charset == old(self).current_charset,
    {
        self.current_view = view;
    }

    pub fn quit(&mut self)
        ensures
            final(self).should_quit,
            final(self).current_view == old(self).current_view,
            final(self).current_book == old(self).current_book,
            final(self).settings == old(self).settings,
            final(self).current_charset == old(self).current_charset,
    {
        self.should_quit = true;
    }

    /// Makes `book` the current book and shows it in the reader.
    pub fn load_book(&mut self, book: Book)
        ensures
            final(self).current_book == Some(book),
            final(self).current_view == View::Reader,
            final(self).should_quit == old(self).should_quit,
            final(self).settings == old(self).settings,
            final(self).current_charset == old(self).current_charset,
    {
        self.current_book = Some(book);
        self.current_view = View::Reader;
    }

    /// Moves to the next charset in the cycle.
    pub fn cycle_charset(&mut self)
        ensures
            final(self).current_charset == next_charset(old(self).current_charset),
            final(self).current_view == old(self).current_view,
            final(self).should_quit == old(self).should_quit,
            final(self).current_book == old(self).current_book,
            final(self).settings == old(self).settings,
    {
        self.current_charset = match self.current_charset {
            Charset::Utf8 => Charset::Gb2312,
            Charset::Gb2312 => Charset::Gbk,
            Charset::Gbk => Charset::Gb18030,
            Charset::Gb18030 => Charset::Utf8,
        };
    }
}

impl Default for AppState {
    fn default() -> (res: Self)
        ensures
            res.current_view == View::Library,
            !res.should_quit,
            res.current_book is None,
            res.settings.is_default(),
            res.current_charset == Charset::Utf8,
    {
        Self::new()
    }
}

/// Four charset changes come back to the charset one started from.
pub proof fn law_charset_cycle_returns(c: Charset)
    ensures
        next_charset(next_charset(next_charset(next_charset(c)))) == c,
{
}

} // verus!
