//! User settings: theme colours, scrolling preferences and saved bookmarks.

use vstd::prelude::*;

use crate::utils::text::{lowercase_of, str_equal, to_lowercase};

verus! {

broadcast use vstd::string::group_string_axioms;

#[derive(Debug, Clone)]
pub struct Bookmark {
    pub book_path: String,
    pub chapter: usize,
    pub scroll_offset: usize,
    pub title: String,
}

impl Bookmark {
    /// The bookmark's fields, as plain values.
    pub open spec fn spec_fields(&self) -> (Seq<char>, usize, usize, Seq<char>) {
        (self.book_path@, self.chapter, self.scroll_offset, self.title@)
    }

    /// A copy of the bookmark.
    pub fn duplicate(&self) -> (res: Bookmark)
        ensures
            res.spec_fields() == self.spec_fields(),
    {
        Bookmark {
            book_path: self.book_path.clone(),
            chapter: self.chapter,
            scroll_offset: self.scroll_offset,
            title: self.title.clone(),
        }
    }
}

#[derive(Debug, Clone)]
pub struct Settings {
    pub theme: ThemeSettings,
    pub scrolling: ScrollingSettings,
    pub bookmarks: Vec<Bookmark>,
}

#[derive(Debug, Clone)]
pub struct ThemeSettings {
    pub background_color: String,
    pub foreground_color: String,
    pub status_bar_fg: String,
    pub status_bar_bg: String,
    pub scrollbar_track: String,
    pub scrollbar_thumb: String,
}

#[derive(Debug, Clone)]
pub struct ScrollingSettings {
    pub scroll_speed_lines: usize,
    pub scroll_by_page: bool,
}

/// The colours a theme can name.
#[derive(Debug, Clone, Copy, PartialEq, Eq, Structural)]
pub enum ThemeColor {
    Black,
    Red,
    Green,
    Yellow,
    Blue,
    Magenta,
    Cyan,
    White,
    Gray,
    DarkGray,
    LightYellow,
}

impl ThemeSettings {
    pub open spec fn is_default(&self) -> bool {
        &&& self.background_color@ == "black"@
        &&& self.foreground_color@ == "white"@
        &&& self.status_bar_fg@ == "yellow"@
        &&& self.status_bar_bg@ == "darkgray"@
        &&& self.scrollbar_track@ == "darkgray"@
        &&& self.scrollbar_thumb@ == "white"@
    }

    /// The colour that a lower-cased colour name denotes; unknown names are white.
    pub open spec fn spec_parse_color(color: Seq<char>) -> ThemeColor {
        let c = lowercase_of(color);
        if c == "black"@ {
            ThemeColor::Black
        } else if c == "red"@ {
            ThemeColor::Red
        } else if c == "green"@ {
            ThemeColor::Green
        } else if c == "yellow"@ {
            ThemeColor::Yellow
        } else if c == "blue"@ {
            ThemeColor::Blue
        } else if c == "magenta"@ {
            ThemeColor::Magenta
        } else if c == "cyan"@ {
            ThemeColor::Cyan
        } else if c == "white"@ {
            ThemeColor::White
        } else if c == "gray"@ {
            ThemeColor::Gray
        } else if c == "darkgray"@ {
            ThemeColor::DarkGray
        } else if c == "lightgray"@ {
            ThemeColor::Gray
        } else if c == "lightyellow"@ {
            ThemeColor::LightYellow
        } else {
            ThemeColor::White
        }
    }

    /// Parses a colour name, ignoring case; unknown names give white.
    pub fn parse_color(&self, color_str: &str) -> (res: ThemeColor)
        ensures
            res == Self::spec_parse_color(color_str@),
    {
        let lower = to_lowercase(color_str);
        let c = lower.as_str();
        if str_equal(c, "black") {
            ThemeColor::Black
        } else if str_equal(c, "red") {
            ThemeColor::Red
        } else if str_equal(c, "green") {
            ThemeColor::Green
        } else if str_equal(c, "yellow") {
            ThemeColor::Yellow
        } else if str_equal(c, "blue") {
            ThemeColor::Blue
        } else if str_equal(c, "magenta") {
            ThemeColor::Magenta
        } else if str_equal(c, "cyan") {
            ThemeColor::Cyan
        } else if str_equal(c, "white") {
            ThemeColor::White
        } else if str_equal(c, "gray") {
            ThemeColor::Gray
        } else if str_equal(c, "darkgray") {
            ThemeColor::DarkGray
        } else if str_equal(c, "lightgray") {
            ThemeColor::Gray
        } else if str_equal(c, "lightyellow") {
            ThemeColor::LightYellow
        } else {
            ThemeColor::White
        }
    }
}

impl Default for ThemeSettings {
    fn default() -> (res: Self)
        ensures
            res.is_default(),
    {
        Self {
            background_color: String::from_str("black"),
            foreground_color: String::from_str("white"),
            status_bar_fg: String::from_str("yellow"),
            status_bar_bg: String::from_str("darkgray"),
            scrollbar_track: String::from_str("darkgray"),
            scrollbar_thumb: String::from_str("white"),
        }
    }
}

impl ScrollingSettings {
    pub open spec fn is_default(&self) -> bool {
        self.scroll_speed_lines == 1 && self.scroll_by_page
    }
}

impl Default for ScrollingSettings {
    fn default() -> (res: Self)
        ensures
            res.is_default(),
    {
        Self { scroll_speed_lines: 1, scroll_by_page: true }
    }
}

impl Settings {
    pub open spec fn is_default(&self) -> bool {
        self.theme.is_default() && self.scrolling.is_default() && self.bookmarks@.len() == 0
    }

    /// Whether a bookmark for this book, chapter and scroll position is already saved.
    pub open spec fn spec_has_bookmark_at(&self, book_path: Seq<char>, chapter: usize, scroll_offset: usize) -> bool {
        exists|i: int|
            0 <= i < self.bookmarks@.len() && #[trigger] self.bookmarks@[i].book_path@ == book_path
                && self.bookmarks@[i].chapter == chapter && self.bookmarks@[i].scroll_offset
                == scroll_offset
    }

    /// Whether a bookmark for this book, chapter and scroll position is already saved.
    pub fn has_bookmark_at(&self, book_path: &str, chapter: usize, scroll_offset: usize) -> (res: bool)
        ensures
            res == self.spec_has_bookmark_at(book_path@, chapter, scroll_offset),
    {
        let mut i: usize = 0;
        while i < self.bookmarks.len()
            invariant
                i <= self.bookmarks@.len(),
                forall|j: int|
                    0 <= j < i ==> !(#[trigger] self.bookmarks@[j].book_path@ == book_path@
                        && self.bookmarks@[j].chapter == chapter
                        && self.bookmarks@[j].scroll_offset == scroll_offset),
            decreases self.bookmarks@.len() - i,
        {
            let b = &self.bookmarks[i];
            if str_equal(b.book_path.as_str(), book_path) && b.chapter == chapter
                && b.scroll_offset == scroll_offset {
                return true;
            }
            i = i + 1;
        }
        false
    }

    /// No two saved bookmarks mark the same book, chapter and scroll position.
    pub open spec fn places_distinct(&self) -> bool {
        forall|i: int, j: int|
            0 <= i < j < self.bookmarks@.len() ==> !(#[trigger] self.bookmarks@[i].book_path@
                == #[trigger] self.bookmarks@[j].book_path@ && self.bookmarks@[i].chapter
                == self.bookmarks@[j].chapter && self.bookmarks@[i].scroll_offset
                == self.bookmarks@[j].scroll_offset)
    }

    /// Saves a bookmark unless one for the same book, chapter and scroll position
    /// exists; says whether it was added. Afterwards a bookmark for that place is
    /// saved, and no place is marked twice if none was before.
    pub fn add_bookmark(&mut self, bookmark: Bookmark) -> (added: bool)
        ensures
            added == !old(self).spec_has_bookmark_at(
                bookmark.book_path@,
                bookmark.chapter,
                bookmark.scroll_offset,
            ),
            added ==> final(self).bookmarks@ == old(self).bookmarks@.push(bookmark),
            !added ==> final(self).bookmarks@ == old(self).bookmarks@,
            final(self).theme == old(self).theme,
            final(self).scrolling == old(self).scrolling,
            final(self).spec_has_bookmark_at(
                bookmark.book_path@,
                bookmark.chapter,
                bookmark.scroll_offset,
            ),
            old(self).places_distinct() ==> final(self).places_distinct(),
    {
        let ghost b = bookmark;
        let exists = self.has_bookmark_at(bookmark.book_path.as_str(), bookmark.chapter, bookmark.scroll_offset);
        if !exists {
            self.bookmarks.push(bookmark);
            let ghost last = (self.bookmarks@.len() - 1) as int;
            assert(self.bookmarks@[last] == b);
            assert(self.spec_has_bookmark_at(b.book_path@, b.chapter, b.scroll_offset));
            true
        } else {
            false
        }
    }
}

impl Default for Settings {
    fn default() -> (res: Self)
        ensures
            res.is_default(),
    {
        Self {
            theme: ThemeSettings::default(),
            scrolling: ScrollingSettings::default(),
            bookmarks: Vec::new(),
        }
    }
}

} // verus!
