//! The content model of a loaded book: its full text, its chapters with their
//! byte offsets, and its division into pages of a given height.

use vstd::prelude::*;

use crate::utils::text::{
    byte_len, decimal, push_decimal, page_count, split_lines, text_page_count, text_pages, text_pages_exec,
};

verus! {

broadcast use vstd::string::group_string_axioms;

/// The number of lines a page holds where no window height is given.
pub const DEFAULT_LINES_PER_PAGE: usize = 50;

#[derive(Debug)]
pub struct Book {
    pub metadata: BookMetadata,
    pub content: BookContent,
}

#[derive(Debug)]
pub struct BookMetadata {
    pub title: String,
    pub author: String,
    pub format: String,
}

impl BookMetadata {
    pub fn new(title: String, author: String, format: String) -> (res: Self)
        ensures
            res.title@ == title@,
            res.author@ == author@,
            res.format@ == format@,
    {
        Self { title, author, format }
    }
}

#[derive(Debug)]
pub struct BookContent {
    pub full_text: String,
    pub chapters: Vec<String>,
    /// Byte offset of each chapter's start, counting the chapters' own bytes.
    pub chapter_offsets: Vec<usize>,
}

/// The total UTF-8 byte length of the first `n` chapters.
pub open spec fn bytes_before(chapters: Seq<Seq<char>>, n: int) -> int
    decreases n,
{
    if n <= 0 {
        0
    } else {
        bytes_before(chapters, n - 1) + byte_len(chapters[n - 1]) as int
    }
}

/// The start offset of each chapter: the byte lengths of the chapters before it, summed.
pub open spec fn chapter_start_offsets(chapters: Seq<Seq<char>>) -> Seq<usize> {
    Seq::new(chapters.len(), |i: int| bytes_before(chapters, i) as usize)
}

/// The index of the last chapter whose start offset is at most `offset`, or 0 when none is.
pub open spec fn chapter_index_at(offsets: Seq<usize>, offset: usize) -> usize
    decreases offsets.len(),
{
    if offsets.len() == 0 {
        0
    } else if offsets.last() <= offset {
        (offsets.len() - 1) as usize
    } else {
        chapter_index_at(offsets.drop_last(), offset)
    }
}

pub proof fn lemma_bytes_before_monotonic(chapters: Seq<Seq<char>>, a: int, b: int)
    requires
        a <= b,
    ensures
        bytes_before(chapters, a) <= bytes_before(chapters, b),
    decreases b - a,
{
    if a < b {
        lemma_bytes_before_monotonic(chapters, a, b - 1);
    }
}

impl BookContent {
    /// The text shown for the current chapter: the chapter itself when the book has
    /// more than one chapter, the full text otherwise; none when that chapter does not exist.
    pub open spec fn spec_current_text(&self, chapter: usize) -> Option<Seq<char>> {
        if self.chapters@.len() > 1 {
            if chapter < self.chapters@.len() {
                Some(self.chapters@[chapter as int]@)
            } else {
                None
            }
        } else {
            Some(self.full_text@)
        }
    }

    /// A single chapter holding the whole text, starting at offset 0.
    pub fn new(full_text: String) -> (res: Self)
        ensures
            res.full_text@ == full_text@,
            res.chapters.deep_view() == seq![full_text@],
            res.chapter_offsets@ == seq![0usize],
    {
        let chapter = full_text.clone();
        let chapters = vec![chapter];
        let offsets = vec![0usize];
        assert(chapters.deep_view() =~= seq![full_text@]);
        Self { full_text, chapters, chapter_offsets: offsets }
    }

    /// Whether the chapters' byte lengths, summed, fit in a `usize` (as
    /// `new_with_chapters` needs).
    pub fn chapters_fit(chapters: &Vec<String>) -> (fits: bool)
        ensures
            fits == (bytes_before(chapters.deep_view(), chapters.len() as int) <= usize::MAX),
    {
        let ghost dv = chapters.deep_view();
        let mut total: usize = 0;
        let mut i: usize = 0;
        while i < chapters.len()
            invariant
                i <= chapters.len(),
                dv == chapters.deep_view(),
                total == bytes_before(dv, i as int),
            decreases chapters.len() - i,
        {
            let len = chapters[i].as_str().len();
            proof {
                lemma_bytes_before_monotonic(dv, i + 1, chapters.len() as int);
            }
            match total.checked_add(len) {
                Some(t) => {
                    total = t;
                },
                None => {
                    return false;
                },
            }
            i = i + 1;
        }
        true
    }

    /// The given chapters, each starting at the summed byte length of those before it.
    pub fn new_with_chapters(full_text: String, chapters: Vec<String>) -> (res: Self)
        requires
            bytes_before(chapters.deep_view(), chapters.len() as int) <= usize::MAX,
        ensures
            res.full_text@ == full_text@,
            res.chapters.deep_view() == chapters.deep_view(),
            res.chapter_offsets@ == chapter_start_offsets(chapters.deep_view()),
    {
        let ghost dv = chapters.deep_view();
        let mut chapter_offsets: Vec<usize> = Vec::with_capacity(chapters.len());
        let mut current_offset: usize = 0;
        let mut i: usize = 0;
        while i < chapters.len()
            invariant
                i <= chapters.len(),
                dv == chapters.deep_view(),
                bytes_before(dv, chapters.len() as int) <= usize::MAX,
                current_offset == bytes_before(dv, i as int),
                chapter_offsets@ == chapter_start_offsets(dv).take(i as int),
            decreases chapters.len() - i,
        {
            chapter_offsets.push(current_offset);
            proof {
                lemma_bytes_before_monotonic(dv, i + 1, chapters.len() as int);
            }
            let len = chapters[i].as_str().len();
            current_offset = current_offset + len;
            assert(chapter_offsets@ =~= chapter_start_offsets(dv).take(i + 1));
            i = i + 1;
        }
        assert(chapter_start_offsets(dv).take(i as int) =~= chapter_start_offsets(dv));
        Self { full_text, chapters, chapter_offsets }
    }

    /// The full text divided into pages of `lines_per_page` lines.
    pub fn pages_for_height(&self, lines_per_page: usize) -> (pages: Vec<String>)
        requires
            lines_per_page > 0,
        ensures
            pages.deep_view() == text_pages(self.full_text@, lines_per_page as nat),
    {
        text_pages_exec(self.full_text.as_str(), lines_per_page)
    }

    /// The page at `index` of the full text, at `lines_per_page` lines a page.
    pub fn get_page_for_height(&self, index: usize, lines_per_page: usize) -> (page: Option<String>)
        requires
            lines_per_page > 0,
        ensures
            match page {
                Some(p) => index < text_pages(self.full_text@, lines_per_page as nat).len()
                    && p@ == text_pages(self.full_text@, lines_per_page as nat)[index as int],
                None => index >= text_pages(self.full_text@, lines_per_page as nat).len(),
            },
    {
        let pages = self.pages_for_height(lines_per_page);
        if index < pages.len() {
            let p = pages[index].clone();
            Some(p)
        } else {
            None
        }
    }

    /// The number of pages of the full text at `lines_per_page` lines a page.
    pub fn page_count_for_height(&self, lines_per_page: usize) -> (n: usize)
        requires
            lines_per_page > 0,
        ensures
            n == page_count(split_lines(self.full_text@).len(), lines_per_page as nat),
            n == text_pages(self.full_text@, lines_per_page as nat).len(),
    {
        text_page_count(self.full_text.as_str(), lines_per_page)
    }

    /// The number of pages of the full text at the default page height.
    pub fn page_count(&self) -> (n: usize)
        ensures
            n == text_pages(self.full_text@, DEFAULT_LINES_PER_PAGE as nat).len(),
    {
        self.page_count_for_height(DEFAULT_LINES_PER_PAGE)
    }

    /// The page at `index` of the full text at the default page height.
    pub fn get_page(&self, index: usize) -> (page: Option<String>)
        ensures
            match page {
                Some(p) => index < text_pages(self.full_text@, DEFAULT_LINES_PER_PAGE as nat).len()
                    && p@ == text_pages(self.full_text@, DEFAULT_LINES_PER_PAGE as nat)[index as int],
                None => index >= text_pages(self.full_text@, DEFAULT_LINES_PER_PAGE as nat).len(),
            },
    {
        self.get_page_for_height(index, DEFAULT_LINES_PER_PAGE)
    }

    pub fn chapter_count(&self) -> (n: usize)
        ensures
            n == self.chapters@.len(),
    {
        self.chapters.len()
    }

    pub fn get_chapter(&self, index: usize) -> (chapter: Option<&str>)
        ensures
            match chapter {
                Some(c) => index < self.chapters@.len() && c@ == self.chapters@[index as int]@,
                None => index >= self.chapters@.len(),
            },
    {
        if index < self.chapters.len() {
            Some(self.chapters[index].as_str())
        } else {
            None
        }
    }

    /// The text of the current chapter as the reader shows it (see `spec_current_text`).
    pub fn current_text(&self, chapter: usize) -> (text: Option<&str>)
        ensures
            match text {
                Some(t) => self.spec_current_text(chapter) == Some(t@),
                None => self.spec_current_text(chapter) is None,
            },
    {
        if self.chapters.len() > 1 {
            self.get_chapter(chapter)
        } else {
            Some(self.full_text.as_str())
        }
    }

    /// The index of the last chapter that starts at or before `offset` (0 when none does).
    pub fn chapter_index_for_offset(&self, offset: usize) -> (index: usize)
        ensures
            index == chapter_index_at(self.chapter_offsets@, offset),
    {
        let mut i = self.chapter_offsets.len();
        assert(self.chapter_offsets@.take(i as int) =~= self.chapter_offsets@);
        while i > 0
            invariant
                i <= self.chapter_offsets@.len(),
                chapter_index_at(self.chapter_offsets@.take(i as int), offset) == chapter_index_at(
                    self.chapter_offsets@,
                    offset,
                ),
            decreases i,
        {
            let ghost pre = self.chapter_offsets@.take(i as int);
            assert(pre.drop_last() =~= self.chapter_offsets@.take(i - 1));
            if self.chapter_offsets[i - 1] <= offset {
                return i - 1;
            }
            i = i - 1;
        }
        0
    }

    /// The start offset of a chapter (0 when it has none) and the start offset of
    /// the next one (the full text's byte length when there is none).
    pub fn chapter_boundaries(&self, chapter_index: usize) -> (bounds: (usize, usize))
        requires
            chapter_index < usize::MAX,
        ensures
            bounds.0 == if chapter_index < self.chapter_offsets@.len() {
                self.chapter_offsets@[chapter_index as int]
            } else {
                0
            },
            bounds.1 == if chapter_index + 1 < self.chapter_offsets@.len() {
                self.chapter_offsets@[chapter_index + 1]
            } else {
                byte_len(self.full_text@)
            },
    {
        let start = if chapter_index < self.chapter_offsets.len() {
            self.chapter_offsets[chapter_index]
        } else {
            0
        };
        let end = if chapter_index + 1 < self.chapter_offsets.len() {
            self.chapter_offsets[chapter_index + 1]
        } else {
            self.full_text.as_str().len()
        };
        (start, end)
    }

    /// The chapter at `chapter_index` divided into pages (none when there is no such chapter).
    pub fn pages_for_chapter(&self, chapter_index: usize, lines_per_page: usize) -> (pages: Vec<
        String,
    >)
        requires
            lines_per_page > 0,
        ensures
            pages.deep_view() == if chapter_index < self.chapters@.len() {
                text_pages(self.chapters@[chapter_index as int]@, lines_per_page as nat)
            } else {
                Seq::<Seq<char>>::empty()
            },
    {
        if chapter_index < self.chapters.len() {
            text_pages_exec(self.chapters[chapter_index].as_str(), lines_per_page)
        } else {
            let empty: Vec<String> = Vec::new();
            assert(empty.deep_view() =~= Seq::<Seq<char>>::empty());
            empty
        }
    }

    /// The number of pages of the chapter at `chapter_index` (0 when there is no such chapter).
    pub fn page_count_for_chapter(&self, chapter_index: usize, lines_per_page: usize) -> (n: usize)
        requires
            lines_per_page > 0,
        ensures
            n == if chapter_index < self.chapters@.len() {
                page_count(
                    split_lines(self.chapters@[chapter_index as int]@).len(),
                    lines_per_page as nat,
                )
            } else {
                0
            },
    {
        if chapter_index < self.chapters.len() {
            text_page_count(self.chapters[chapter_index].as_str(), lines_per_page)
        } else {
            0
        }
    }
}

impl BookContent {
    /// "<bytes> characters, <chapters> chapters": the full text's byte length and the
    /// number of chapters.
    pub fn describe(&self) -> (text: String)
        ensures
            text@ == decimal(byte_len(self.full_text@) as nat) + " characters, "@ + decimal(
                self.chapters@.len(),
            ) + " chapters"@,
    {
        let mut text = String::new();
        push_decimal(&mut text, self.full_text.as_str().len());
        text.push_str(" characters, ");
        push_decimal(&mut text, self.chapters.len());
        text.push_str(" chapters");
        assert(text@ =~= decimal(byte_len(self.full_text@) as nat) + " characters, "@ + decimal(
            self.chapters@.len(),
        ) + " chapters"@);
        text
    }
}

impl Book {
    pub fn new(metadata: BookMetadata, content: BookContent) -> (res: Self)
        ensures
            res.metadata == metadata,
            res.content == content,
    {
        Self { metadata, content }
    }
}

/// The index `chapter_index_at` picks starts at or before the offset, and the next
/// chapter, if any, starts after it, whenever the first start is at or before it.
pub proof fn lemma_chapter_index_at(offsets: Seq<usize>, offset: usize)
    requires
        offsets.len() > 0,
        offsets.len() <= usize::MAX,
        offsets[0] <= offset,
    ensures
        chapter_index_at(offsets, offset) < offsets.len(),
        offsets[chapter_index_at(offsets, offset) as int] <= offset,
        chapter_index_at(offsets, offset) + 1 < offsets.len() ==> offset < offsets[chapter_index_at(
            offsets,
            offset,
        ) + 1],
    decreases offsets.len(),
{
    if offsets.last() > offset {
        let pre = offsets.drop_last();
        assert(pre[0] == offsets[0]);
        lemma_chapter_index_at(pre, offset);
        let i = chapter_index_at(pre, offset);
        assert(offsets[i as int] == pre[i as int]);
        if i + 1 < pre.len() {
            assert(offsets[i + 1] == pre[i + 1]);
        }
    }
}

/// Chapter start offsets never decrease from one chapter to the next.
pub proof fn law_chapter_offsets_nondecreasing(chapters: Seq<Seq<char>>, i: int, j: int)
    requires
        0 <= i <= j < chapters.len(),
        bytes_before(chapters, chapters.len() as int) <= usize::MAX,
    ensures
        chapter_start_offsets(chapters)[i] <= chapter_start_offsets(chapters)[j],
{
    lemma_bytes_before_monotonic(chapters, i, j);
    lemma_bytes_before_monotonic(chapters, j, chapters.len() as int);
    lemma_bytes_before_nonnegative(chapters, i);
}

pub proof fn lemma_bytes_before_nonnegative(chapters: Seq<Seq<char>>, n: int)
    ensures
        bytes_before(chapters, n) >= 0,
    decreases n,
{
    if n > 0 {
        lemma_bytes_before_nonnegative(chapters, n - 1);
    }
}

/// Looking up an offset in a book's chapters finds the chapter whose span holds it:
/// that chapter starts at or before the offset, and the next one starts after it.
pub proof fn law_chapter_lookup_locates_offset(chapters: Seq<Seq<char>>, offset: usize)
    requires
        chapters.len() > 0,
        chapters.len() <= usize::MAX,
        bytes_before(chapters, chapters.len() as int) <= usize::MAX,
    ensures
        ({
            let offsets = chapter_start_offsets(chapters);
            let i = chapter_index_at(offsets, offset);
            &&& i < chapters.len()
            &&& offsets[i as int] <= offset
            &&& i + 1 < chapters.len() ==> offset < offsets[i + 1]
        }),
{
    assert(chapter_start_offsets(chapters)[0] == 0);
    lemma_chapter_index_at(chapter_start_offsets(chapters), offset);
}

} // verus!
