//! Text primitives on character sequences: splitting into lines,
//! joining lines, grouping lines into pages, lower-casing and
//! substring search on the UTF-8 bytes of a line.

use vstd::prelude::*;

verus! {

broadcast use vstd::string::group_string_axioms;

/// Appending a character to a `String` extends its character sequence by that character.
pub assume_specification[ String::push ](s: &mut String, ch: char)
    ensures
        final(s)@ == old(s)@.push(ch),
;

/// Appending a string slice to a `String` extends its character sequence by that slice.
pub assume_specification[ String::push_str ](s: &mut String, string: &str)
    ensures
        final(s)@ == old(s)@ + string@,
;

/// Removing the last character of a `String` gives it back, when there is one.
pub assume_specification[ String::pop ](s: &mut String) -> (res: Option<char>)
    ensures
        old(s)@.len() > 0 ==> res == Some(old(s)@.last()) && final(s)@ == old(s)@.drop_last(),
        old(s)@.len() == 0 ==> res is None && final(s)@ == old(s)@,
;

/// Two string slices are equal exactly when their character sequences are.
pub assume_specification[ <str as PartialEq>::eq ](a: &str, b: &str) -> (res: bool)
    ensures
        res == (a@ == b@),
;

/// Whether two string slices hold the same characters.
pub fn str_equal(a: &str, b: &str) -> (res: bool)
    ensures
        res == (a@ == b@),
{
    *a == *b
}

/// What `str::to_lowercase` returns for a given character sequence.
pub uninterp spec fn lowercase_of(s: Seq<char>) -> Seq<char>;

/// `str::to_lowercase`: the lower-case mapping of `s`. Its documentation maps each
/// character to one or more characters, so a non-empty string stays non-empty;
/// nothing else is stated of the mapping.
#[verifier::external_body]
pub(crate) fn to_lowercase(s: &str) -> (res: String)
    ensures
        res@ == lowercase_of(s@),
        s@.len() > 0 ==> res@.len() > 0,
{
    s.to_lowercase()
}

/// The UTF-8 byte length of a character sequence, as `str::len` reports it.
pub open spec fn byte_len(s: Seq<char>) -> usize {
    vstd::utf8::encode_utf8(s).len() as usize
}

/// The UTF-8 bytes of a character sequence.
pub open spec fn utf8_bytes(s: Seq<char>) -> Seq<u8> {
    vstd::utf8::encode_utf8(s)
}

/// The lines of `s`, as `str::split('\n')` yields them: always at least one,
/// and none of them holds a newline.
pub open spec fn split_lines(s: Seq<char>) -> Seq<Seq<char>>
    decreases s.len(),
{
    if s.len() == 0 {
        seq![Seq::<char>::empty()]
    } else {
        let prev = split_lines(s.drop_last());
        if s.last() == '\n' {
            prev.push(Seq::<char>::empty())
        } else {
            prev.update(prev.len() - 1, prev.last().push(s.last()))
        }
    }
}

/// `lines` joined with a newline between each two neighbours (`[..].join("\n")`).
pub open spec fn join_lines(lines: Seq<Seq<char>>) -> Seq<char>
    decreases lines.len(),
{
    if lines.len() == 0 {
        Seq::<char>::empty()
    } else if lines.len() == 1 {
        lines[0]
    } else {
        join_lines(lines.drop_last()) + seq!['\n'] + lines.last()
    }
}

/// The number of pages that `line_count` lines fill at `per_page` lines a page
/// (the last page may be shorter).
pub open spec fn page_count(line_count: nat, per_page: nat) -> nat {
    line_count / per_page + if line_count % per_page > 0 { 1nat } else { 0nat }
}

/// `lines` grouped into runs of `per_page` consecutive lines (the last run may be
/// shorter), each run joined with newlines: `lines.chunks(per_page).map(|c| c.join("\n"))`.
pub open spec fn chunk_pages(lines: Seq<Seq<char>>, per_page: nat) -> Seq<Seq<char>>
    decreases lines.len(),
{
    if per_page == 0 || lines.len() == 0 {
        Seq::<Seq<char>>::empty()
    } else if lines.len() <= per_page {
        seq![join_lines(lines)]
    } else {
        seq![join_lines(lines.take(per_page as int))] + chunk_pages(
            lines.skip(per_page as int),
            per_page,
        )
    }
}

/// The pages of a text at `per_page` lines a page.
pub open spec fn text_pages(text: Seq<char>, per_page: nat) -> Seq<Seq<char>> {
    chunk_pages(split_lines(text), per_page)
}

pub proof fn lemma_split_lines_nonempty(s: Seq<char>)
    ensures
        split_lines(s).len() >= 1,
    decreases s.len(),
{
    if s.len() > 0 {
        lemma_split_lines_nonempty(s.drop_last());
    }
}

/// No line produced by `split_lines` holds a newline.
pub proof fn lemma_split_lines_no_newline(s: Seq<char>)
    ensures
        forall|i: int, j: int|
            0 <= i < split_lines(s).len() && 0 <= j < split_lines(s)[i].len() ==> split_lines(
                s,
            )[i][j] != '\n',
    decreases s.len(),
{
    if s.len() > 0 {
        lemma_split_lines_no_newline(s.drop_last());
        lemma_split_lines_nonempty(s.drop_last());
        let prev = split_lines(s.drop_last());
        if s.last() != '\n' {
            assert forall|i: int, j: int|
                0 <= i < split_lines(s).len() && 0 <= j < split_lines(s)[i].len() implies split_lines(
                s,
            )[i][j] != '\n' by {
                if i == prev.len() - 1 {
                    assert(split_lines(s)[i] == prev.last().push(s.last()));
                    if j < prev.last().len() {
                        assert(split_lines(s)[i][j] == prev[i][j]);
                    }
                } else {
                    assert(split_lines(s)[i] == prev[i]);
                }
            }
        } else {
            assert forall|i: int, j: int|
                0 <= i < split_lines(s).len() && 0 <= j < split_lines(s)[i].len() implies split_lines(
                s,
            )[i][j] != '\n' by {
                assert(split_lines(s)[i] == prev.push(Seq::<char>::empty())[i]);
            }
        }
    }
}

/// Extending the last line by a character extends the joined text by that character.
pub proof fn lemma_join_extend_last(lines: Seq<Seq<char>>, c: char)
    requires
        lines.len() >= 1,
    ensures
        join_lines(lines.update(lines.len() - 1, lines.last().push(c))) == join_lines(lines).push(
            c,
        ),
{
    let upd = lines.update(lines.len() - 1, lines.last().push(c));
    if lines.len() > 1 {
        assert(upd.drop_last() =~= lines.drop_last());
        assert(join_lines(upd) =~= join_lines(lines).push(c));
    }
}

/// Joining the lines of a text gives the text back.
pub proof fn lemma_join_split(s: Seq<char>)
    ensures
        join_lines(split_lines(s)) == s,
    decreases s.len(),
{
    if s.len() > 0 {
        let t = s.drop_last();
        lemma_join_split(t);
        lemma_split_lines_nonempty(t);
        let prev = split_lines(t);
        if s.last() == '\n' {
            let cur = prev.push(Seq::<char>::empty());
            assert(cur.drop_last() =~= prev);
            assert(join_lines(cur) =~= s);
        } else {
            lemma_join_extend_last(prev, s.last());
            assert(t.push(s.last()) =~= s);
        }
    }
}

/// Joining the concatenation of two non-empty runs of lines puts a newline between
/// their joins.
pub proof fn lemma_join_append(a: Seq<Seq<char>>, b: Seq<Seq<char>>)
    requires
        a.len() >= 1,
        b.len() >= 1,
    ensures
        join_lines(a + b) == join_lines(a) + seq!['\n'] + join_lines(b),
    decreases b.len(),
{
    if b.len() == 1 {
        assert((a + b).drop_last() =~= a);
    } else {
        lemma_join_append(a, b.drop_last());
        assert((a + b).drop_last() =~= a + b.drop_last());
        assert(join_lines(a + b) =~= join_lines(a) + seq!['\n'] + join_lines(b));
    }
}

/// The page count of `chunk_pages` is `page_count`.
pub proof fn lemma_chunk_pages_len(lines: Seq<Seq<char>>, per_page: nat)
    requires
        per_page > 0,
    ensures
        chunk_pages(lines, per_page).len() == page_count(lines.len(), per_page),
    decreases lines.len(),
{
    let len = lines.len();
    if len == 0 {
        assert(page_count(0, per_page) == 0) by (nonlinear_arith)
            requires
                per_page > 0,
        ;
    } else if len <= per_page {
        if len == per_page {
            vstd::arithmetic::div_mod::lemma_fundamental_div_mod_converse(
                len as int,
                per_page as int,
                1,
                0,
            );
        } else {
            vstd::arithmetic::div_mod::lemma_fundamental_div_mod_converse(
                len as int,
                per_page as int,
                0,
                len as int,
            );
        }
    } else {
        let rest = lines.skip(per_page as int);
        lemma_chunk_pages_len(rest, per_page);
        let r = rest.len();
        vstd::arithmetic::div_mod::lemma_fundamental_div_mod(r as int, per_page as int);
        let q = r as int / per_page as int;
        let m = r as int % per_page as int;
        assert(len as int == (q + 1) * per_page + m) by (nonlinear_arith)
            requires
                r as int == per_page * q + m,
                len == r + per_page,
        ;
        vstd::arithmetic::div_mod::lemma_fundamental_div_mod_converse(
            len as int,
            per_page as int,
            q + 1,
            m,
        );
    }
}

/// Joining the pages gives back the joined lines: paging loses no text.
pub proof fn lemma_chunk_pages_join(lines: Seq<Seq<char>>, per_page: nat)
    requires
        per_page > 0,
        lines.len() >= 1,
    ensures
        join_lines(chunk_pages(lines, per_page)) == join_lines(lines),
    decreases lines.len(),
{
    if lines.len() > per_page {
        let first = lines.take(per_page as int);
        let rest = lines.skip(per_page as int);
        lemma_chunk_pages_join(rest, per_page);
        lemma_chunk_pages_len(rest, per_page);
        assert(chunk_pages(rest, per_page).len() >= 1) by {
            assert(rest.len() >= 1);
            assert(page_count(rest.len(), per_page) >= 1) by (nonlinear_arith)
                requires
                    rest.len() >= 1,
                    per_page > 0,
            ;
        }
        lemma_join_append(seq![join_lines(first)], chunk_pages(rest, per_page));
        lemma_join_append(first, rest);
        assert(first + rest =~= lines);
    }
}

/// Splitting a text into lines (`str::split('\n')`, collected).
pub fn split_lines_exec(s: &str) -> (lines: Vec<String>)
    ensures
        lines.deep_view() == split_lines(s@),
{
    let mut lines: Vec<String> = Vec::new();
    let mut cur = String::new();
    for c in it: s.chars()
        invariant
            it.seq() == s@,
            lines.deep_view().push(cur@) == split_lines(s@.take(it.index() as int)),
    {
        proof {
            lemma_split_lines_nonempty(s@.take(it.index() as int));
        }
        assert(s@.take(it.index() as int + 1).drop_last() =~= s@.take(it.index() as int));
        if c == '\n' {
            lines.push(cur);
            cur = String::new();
        } else {
            cur.push(c);
        }
    }
    assert(s@.take(s@.len() as int) =~= s@);
    lines.push(cur);
    lines
}

/// The number of lines of a text (`str::split('\n').count()`).
pub fn line_count(s: &str) -> (n: usize)
    ensures
        n == split_lines(s@).len(),
{
    let lines = split_lines_exec(s);
    lines.len()
}

/// Joins `lines[lo..hi]` with newlines.
pub fn join_range(lines: &Vec<String>, lo: usize, hi: usize) -> (res: String)
    requires
        lo <= hi <= lines.len(),
    ensures
        res@ == join_lines(lines.deep_view().subrange(lo as int, hi as int)),
{
    let ghost dv = lines.deep_view();
    let mut res = String::new();
    let mut i = lo;
    while i < hi
        invariant
            lo <= i <= hi <= lines.len(),
            dv == lines.deep_view(),
            res@ == join_lines(dv.subrange(lo as int, i as int)),
        decreases hi - i,
    {
        assert(dv.subrange(lo as int, i + 1).drop_last() =~= dv.subrange(lo as int, i as int));
        if i > lo {
            res.push('\n');
        }
        res.push_str(lines[i].as_str());
        i = i + 1;
    }
    res
}

/// Groups lines into pages of `per_page` lines, each joined with newlines.
pub fn chunk_pages_exec(lines: &Vec<String>, per_page: usize) -> (pages: Vec<String>)
    requires
        per_page > 0,
    ensures
        pages.deep_view() == chunk_pages(lines.deep_view(), per_page as nat),
{
    let ghost dv = lines.deep_view();
    let mut pages: Vec<String> = Vec::new();
    let mut pos: usize = 0;
    let len = lines.len();
    assert(dv.skip(0) =~= dv);
    while pos < len
        invariant
            pos <= len == lines.len(),
            per_page > 0,
            dv == lines.deep_view(),
            pages.deep_view() + chunk_pages(dv.skip(pos as int), per_page as nat) == chunk_pages(
                dv,
                per_page as nat,
            ),
        decreases len - pos,
    {
        let ghost rest = dv.skip(pos as int);
        let end = if len - pos <= per_page {
            len
        } else {
            pos + per_page
        };
        let page = join_range(lines, pos, end);
        proof {
            if len - pos <= per_page {
                assert(rest =~= dv.subrange(pos as int, end as int));
                assert(dv.skip(end as int).len() == 0);
                assert(chunk_pages(dv.skip(end as int), per_page as nat)
                    =~= Seq::<Seq<char>>::empty());
                assert(chunk_pages(rest, per_page as nat) =~= seq![page@] + chunk_pages(
                    dv.skip(end as int),
                    per_page as nat,
                ));
            } else {
                assert(rest.take(per_page as int) =~= dv.subrange(pos as int, end as int));
                assert(rest.skip(per_page as int) =~= dv.skip(end as int));
                assert(rest.len() > per_page);
                assert(join_lines(rest.take(per_page as int)) == page@);
                assert(chunk_pages(rest, per_page as nat) =~= seq![page@] + chunk_pages(
                    dv.skip(end as int),
                    per_page as nat,
                ));
            }
        }
        let ghost before = pages.deep_view();
        pages.push(page);
        assert(pages.deep_view() =~= before.push(page@));
        assert(pages.deep_view() + chunk_pages(dv.skip(end as int), per_page as nat)
            =~= before + chunk_pages(rest, per_page as nat));
        pos = end;
    }
    assert(chunk_pages(dv.skip(len as int), per_page as nat) =~= Seq::<Seq<char>>::empty());
    assert(pages.deep_view() + Seq::<Seq<char>>::empty() =~= pages.deep_view());
    pages
}

/// The pages of a text at `per_page` lines a page.
pub fn text_pages_exec(text: &str, per_page: usize) -> (pages: Vec<String>)
    requires
        per_page > 0,
    ensures
        pages.deep_view() == text_pages(text@, per_page as nat),
{
    let lines = split_lines_exec(text);
    chunk_pages_exec(&lines, per_page)
}

/// The number of pages of a text at `per_page` lines a page.
pub fn text_page_count(text: &str, per_page: usize) -> (n: usize)
    requires
        per_page > 0,
    ensures
        n == page_count(split_lines(text@).len(), per_page as nat),
        n == text_pages(text@, per_page as nat).len(),
{
    let count = line_count(text);
    proof {
        lemma_chunk_pages_len(split_lines(text@), per_page as nat);
    }
    let quotient = count / per_page;
    let remainder = count % per_page;
    if remainder > 0 {
        assert(quotient < count) by (nonlinear_arith)
            requires
                quotient == count / per_page,
                remainder == count % per_page,
                remainder > 0,
                per_page > 0,
        ;
        quotient + 1
    } else {
        quotient
    }
}

/// `pat` occurs in `hay` at byte position `i`.
pub open spec fn occurs_at(hay: Seq<u8>, pat: Seq<u8>, i: int) -> bool {
    0 <= i && i + pat.len() <= hay.len() && hay.subrange(i, i + pat.len()) == pat
}

/// The positions, from `start` on, of the leftmost non-overlapping occurrences of a
/// non-empty `pat` in `hay`: the positions that repeated `find` calls report when
/// each search resumes just after the previous occurrence.
pub open spec fn matches_from(hay: Seq<u8>, pat: Seq<u8>, start: int) -> Seq<int>
    decreases hay.len() - start,
{
    if pat.len() == 0 || start < 0 || start + pat.len() > hay.len() {
        Seq::<int>::empty()
    } else if occurs_at(hay, pat, start) {
        seq![start] + matches_from(hay, pat, start + pat.len())
    } else {
        matches_from(hay, pat, start + 1)
    }
}

/// The bytes of `hay` from position `i` on start with `pat`.
fn bytes_match_at(hay: &[u8], pat: &[u8], i: usize) -> (b: bool)
    requires
        i + pat@.len() <= hay@.len(),
    ensures
        b == occurs_at(hay@, pat@, i as int),
{
    let mut j: usize = 0;
    while j < pat.len()
        invariant
            i + pat@.len() <= hay@.len(),
            hay@.len() == hay.len(),
            j <= pat@.len(),
            forall|k: int| 0 <= k < j ==> hay@[i + k] == pat@[k],
        decreases pat@.len() - j,
    {
        if hay[i + j] != pat[j] {
            assert(hay@.subrange(i as int, i + pat@.len())[j as int] != pat@[j as int]);
            return false;
        }
        j = j + 1;
    }
    assert(hay@.subrange(i as int, i + pat@.len()) =~= pat@);
    true
}

/// The byte positions of the leftmost non-overlapping occurrences of a non-empty
/// `pat` in `hay`.
pub fn find_all(hay: &[u8], pat: &[u8]) -> (res: Vec<usize>)
    requires
        pat@.len() > 0,
    ensures
        res@.map_values(|p: usize| p as int) == matches_from(hay@, pat@, 0),
{
    let mut res: Vec<usize> = Vec::new();
    let mut i: usize = 0;
    while i <= hay.len() && pat.len() <= hay.len() - i
        invariant
            pat@.len() > 0,
            i <= hay@.len() + 1,
            res@.map_values(|p: usize| p as int) + matches_from(hay@, pat@, i as int)
                == matches_from(hay@, pat@, 0),
        decreases hay@.len() + 1 - i,
    {
        let ghost before = res@.map_values(|p: usize| p as int);
        if bytes_match_at(hay, pat, i) {
            res.push(i);
            assert(res@.map_values(|p: usize| p as int) =~= before.push(i as int));
            assert(res@.map_values(|p: usize| p as int) + matches_from(
                hay@,
                pat@,
                i + pat@.len(),
            ) =~= before + matches_from(hay@, pat@, i as int));
            i = i + pat.len();
        } else {
            i = i + 1;
        }
    }
    assert(matches_from(hay@, pat@, i as int) =~= Seq::<int>::empty());
    assert(res@.map_values(|p: usize| p as int) + Seq::<int>::empty() =~= res@.map_values(
        |p: usize| p as int,
    ));
    res
}

/// The UTF-8 encoding of a non-empty character sequence is non-empty.
pub proof fn lemma_utf8_nonempty(s: Seq<char>)
    requires
        s.len() > 0,
    ensures
        utf8_bytes(s).len() > 0,
{
    reveal_with_fuel(vstd::utf8::encode_utf8, 2);
}

/// The match positions of `query` in `line`, both compared lower-cased, as byte
/// offsets into the lower-cased line.
pub open spec fn line_matches(line: Seq<char>, query: Seq<char>) -> Seq<int> {
    matches_from(utf8_bytes(lowercase_of(line)), utf8_bytes(lowercase_of(query)), 0)
}

/// All matches of `query` in `lines`, as (line index, byte offset) pairs in reading order.
pub open spec fn search_lines(lines: Seq<Seq<char>>, query: Seq<char>) -> Seq<(usize, usize)>
    decreases lines.len(),
{
    if lines.len() == 0 {
        Seq::<(usize, usize)>::empty()
    } else {
        search_lines(lines.drop_last(), query) + line_matches(lines.last(), query).map_values(
            |p: int| ((lines.len() - 1) as usize, p as usize),
        )
    }
}

/// All matches of a non-empty `query` in `text`, case-insensitively, as
/// (line index, byte offset in the lower-cased line) pairs.
pub fn search_text(text: &str, query: &str) -> (res: Vec<(usize, usize)>)
    requires
        query@.len() > 0,
    ensures
        res@ == search_lines(split_lines(text@), query@),
{
    let query_lower = to_lowercase(query);
    proof {
        lemma_utf8_nonempty(query_lower@);
    }
    let pat = query_lower.as_str().as_bytes();
    let lines = split_lines_exec(text);
    let ghost dv = lines.deep_view();
    let mut res: Vec<(usize, usize)> = Vec::new();
    let mut k: usize = 0;
    while k < lines.len()
        invariant
            k <= lines.len(),
            dv == lines.deep_view(),
            pat@ == utf8_bytes(lowercase_of(query@)),
            pat@.len() > 0,
            res@ == search_lines(dv.take(k as int), query@),
        decreases lines.len() - k,
    {
        let line_lower = to_lowercase(lines[k].as_str());
        let positions = find_all(line_lower.as_str().as_bytes(), pat);
        let ghost before = res@;
        let mut j: usize = 0;
        while j < positions.len()
            invariant
                j <= positions.len(),
                k < lines.len(),
                positions@.map_values(|p: usize| p as int) == line_matches(dv[k as int], query@),
                res@ == before + line_matches(dv[k as int], query@).take(j as int).map_values(
                    |p: int| (k, p as usize),
                ),
            decreases positions.len() - j,
        {
            let ghost mid = res@;
            res.push((k, positions[j]));
            assert(line_matches(dv[k as int], query@).take(j + 1) =~= line_matches(
                dv[k as int],
                query@,
            ).take(j as int).push(positions@[j as int] as int));
            assert(res@ =~= before + line_matches(dv[k as int], query@).take(j + 1).map_values(
                |p: int| (k, p as usize),
            ));
            j = j + 1;
        }
        assert(line_matches(dv[k as int], query@).take(j as int) =~= line_matches(
            dv[k as int],
            query@,
        ));
        assert(dv.take(k + 1).drop_last() =~= dv.take(k as int));
        assert(res@ =~= search_lines(dv.take(k + 1), query@));
        k = k + 1;
    }
    assert(dv.take(k as int) =~= dv);
    res
}

/// Every position `matches_from` reports is an occurrence at or after `start`, and
/// the occurrences come in increasing order without overlapping.
pub proof fn lemma_matches_from_sound(hay: Seq<u8>, pat: Seq<u8>, start: int)
    ensures
        forall|k: int|
            0 <= k < matches_from(hay, pat, start).len() ==> start <= #[trigger] matches_from(
                hay,
                pat,
                start,
            )[k] && occurs_at(hay, pat, matches_from(hay, pat, start)[k]),
        forall|k: int|
            0 <= k < matches_from(hay, pat, start).len() - 1 ==> #[trigger] matches_from(
                hay,
                pat,
                start,
            )[k] + pat.len() <= matches_from(hay, pat, start)[k + 1],
    decreases hay.len() - start,
{
    if pat.len() == 0 || start < 0 || start + pat.len() > hay.len() {
    } else if occurs_at(hay, pat, start) {
        lemma_matches_from_sound(hay, pat, start + pat.len());
        let rest = matches_from(hay, pat, start + pat.len());
        assert(matches_from(hay, pat, start) == seq![start] + rest);
        assert forall|k: int| 0 <= k < matches_from(hay, pat, start).len() - 1 implies #[trigger] matches_from(
            hay,
            pat,
            start,
        )[k] + pat.len() <= matches_from(hay, pat, start)[k + 1] by {
            if k > 0 {
                assert(matches_from(hay, pat, start)[k] == rest[k - 1]);
                assert(matches_from(hay, pat, start)[k + 1] == rest[k]);
                assert(rest[(k - 1) + 1] == rest[k]);
                assert(rest[k - 1] + pat.len() <= rest[(k - 1) + 1]);
            } else {
                assert(matches_from(hay, pat, start)[k + 1] == rest[0]);
                assert(start + pat.len() <= rest[0]);
            }
        }
    } else {
        lemma_matches_from_sound(hay, pat, start + 1);
        assert(matches_from(hay, pat, start) == matches_from(hay, pat, start + 1));
    }
}

/// Every match that search reports lies on one of the lines searched.
pub proof fn lemma_search_lines_on_lines(lines: Seq<Seq<char>>, query: Seq<char>)
    requires
        lines.len() <= usize::MAX,
    ensures
        forall|k: int|
            0 <= k < search_lines(lines, query).len() ==> (#[trigger] search_lines(lines, query)[k]).0
                < lines.len(),
    decreases lines.len(),
{
    if lines.len() > 0 {
        let prev = lines.drop_last();
        lemma_search_lines_on_lines(prev, query);
        let res = search_lines(lines, query);
        let before = search_lines(prev, query);
        let m = line_matches(lines.last(), query);
        assert forall|k: int| 0 <= k < res.len() implies (#[trigger] res[k]).0 < lines.len() by {
            if k < before.len() {
                assert(res[k] == before[k]);
            } else {
                assert(res[k] == ((lines.len() - 1) as usize, m[k - before.len()] as usize));
            }
        }
    }
}

/// Search finds only real matches: each reported (line, offset) pair names a line of
/// the text, and the lower-cased query's bytes occur in that lower-cased line at that
/// byte offset.
pub proof fn law_search_finds_only_occurrences(lines: Seq<Seq<char>>, query: Seq<char>)
    requires
        lines.len() <= usize::MAX,
        forall|i: int|
            0 <= i < lines.len() ==> #[trigger] utf8_bytes(lowercase_of(lines[i])).len()
                <= usize::MAX,
    ensures
        forall|k: int|
            0 <= k < search_lines(lines, query).len() ==> {
                let (line, pos) = #[trigger] search_lines(lines, query)[k];
                &&& line < lines.len()
                &&& occurs_at(
                    utf8_bytes(lowercase_of(lines[line as int])),
                    utf8_bytes(lowercase_of(query)),
                    pos as int,
                )
            },
    decreases lines.len(),
{
    if lines.len() > 0 {
        let prev = lines.drop_last();
        assert forall|i: int| 0 <= i < prev.len() implies #[trigger] utf8_bytes(
            lowercase_of(prev[i]),
        ).len() <= usize::MAX by {
            assert(prev[i] == lines[i]);
        }
        law_search_finds_only_occurrences(prev, query);
        let hay = utf8_bytes(lowercase_of(lines.last()));
        let pat = utf8_bytes(lowercase_of(query));
        let m = line_matches(lines.last(), query);
        lemma_matches_from_sound(hay, pat, 0);
        let res = search_lines(lines, query);
        let before = search_lines(prev, query);
        assert forall|k: int| 0 <= k < res.len() implies {
            let (line, pos) = #[trigger] res[k];
            &&& line < lines.len()
            &&& occurs_at(
                utf8_bytes(lowercase_of(lines[line as int])),
                utf8_bytes(lowercase_of(query)),
                pos as int,
            )
        } by {
            if k < before.len() {
                assert(res[k] == before[k]);
                assert(prev[res[k].0 as int] == lines[res[k].0 as int]);
            } else {
                let j = k - before.len();
                assert(res[k] == ((lines.len() - 1) as usize, m[j] as usize));
                assert(occurs_at(hay, pat, m[j]));
                assert(utf8_bytes(lowercase_of(lines[lines.len() - 1])).len() <= usize::MAX);
            }
        }
    }
}

/// Paging keeps the text: the pages, joined back with newlines, are the text.
pub proof fn law_pages_rejoin_to_text(text: Seq<char>, per_page: nat)
    requires
        per_page > 0,
    ensures
        join_lines(text_pages(text, per_page)) == text,
{
    lemma_split_lines_nonempty(text);
    lemma_chunk_pages_join(split_lines(text), per_page);
    lemma_join_split(text);
}

/// The number of pages is the number of lines divided by the page height, rounded up.
pub proof fn law_page_count_matches_pages(text: Seq<char>, per_page: nat)
    requires
        per_page > 0,
    ensures
        text_pages(text, per_page).len() == page_count(split_lines(text).len(), per_page),
        text_pages(text, per_page).len() >= 1,
{
    lemma_split_lines_nonempty(text);
    lemma_chunk_pages_len(split_lines(text), per_page);
    let n = split_lines(text).len();
    assert(page_count(n, per_page) >= 1) by (nonlinear_arith)
        requires
            n >= 1,
            per_page > 0,
    ;
}

/// Splitting a text into lines and joining them again gives the text back.
pub proof fn law_lines_rejoin_to_text(text: Seq<char>)
    ensures
        join_lines(split_lines(text)) == text,
{
    lemma_join_split(text);
}

/// What `str::trim` returns: the text without leading and trailing whitespace.
pub uninterp spec fn trim_of(s: Seq<char>) -> Seq<char>;

/// `str::trim`: the slice without leading and trailing whitespace. Only that the
/// result is the named trim of the input is stated.
#[verifier::external_body]
pub(crate) fn trim(s: &str) -> (res: &str)
    ensures
        res@ == trim_of(s@),
{
    s.trim()
}

/// The characters of a string slice, in order.
pub fn chars_of(s: &str) -> (v: Vec<char>)
    ensures
        v@ == s@,
{
    let mut v: Vec<char> = Vec::new();
    for c in it: s.chars()
        invariant
            it.seq() == s@,
            v@ == s@.take(it.index() as int),
    {
        v.push(c);
        assert(s@.take(it.index() as int + 1) =~= s@.take(it.index() as int).push(c));
    }
    assert(s@.take(s@.len() as int) =~= s@);
    v
}

/// `s` ends with `suffix`.
pub open spec fn seq_ends_with(s: Seq<char>, suffix: Seq<char>) -> bool {
    suffix.len() <= s.len() && s.subrange(s.len() - suffix.len(), s.len() as int) == suffix
}

/// `pat` occurs somewhere in `s`.
pub open spec fn seq_contains(s: Seq<char>, pat: Seq<char>) -> bool {
    exists|i: int| 0 <= i && i + pat.len() <= s.len() && #[trigger] s.subrange(i, i + pat.len()) == pat
}

fn chars_match_at(s: &Vec<char>, pat: &Vec<char>, i: usize) -> (b: bool)
    requires
        i + pat@.len() <= s@.len(),
    ensures
        b == (s@.subrange(i as int, i + pat@.len()) == pat@),
{
    let mut j: usize = 0;
    while j < pat.len()
        invariant
            i + pat@.len() <= s@.len(),
            s@.len() == s.len(),
            j <= pat@.len(),
            forall|k: int| 0 <= k < j ==> s@[i + k] == pat@[k],
        decreases pat@.len() - j,
    {
        if s[i + j] != pat[j] {
            assert(s@.subrange(i as int, i + pat@.len())[j as int] != pat@[j as int]);
            return false;
        }
        j = j + 1;
    }
    assert(s@.subrange(i as int, i + pat@.len()) =~= pat@);
    true
}

/// Whether `s` ends with `suffix` (`str::ends_with`).
pub fn ends_with_str(s: &str, suffix: &str) -> (b: bool)
    ensures
        b == seq_ends_with(s@, suffix@),
{
    let cs = chars_of(s);
    let ps = chars_of(suffix);
    if ps.len() > cs.len() {
        false
    } else {
        chars_match_at(&cs, &ps, cs.len() - ps.len())
    }
}

/// Whether `pat` occurs in `s` (`str::contains`).
pub fn contains_str(s: &str, pat: &str) -> (b: bool)
    ensures
        b == seq_contains(s@, pat@),
{
    let cs = chars_of(s);
    let ps = chars_of(pat);
    let mut i: usize = 0;
    while i <= cs.len() && ps.len() <= cs.len() - i
        invariant
            cs@ == s@,
            ps@ == pat@,
            forall|k: int| 0 <= k < i && k + pat@.len() <= s@.len() ==> #[trigger] s@.subrange(k, k + pat@.len()) != pat@,
        decreases cs.len() + 1 - i,
    {
        if chars_match_at(&cs, &ps, i) {
            return true;
        }
        if ps.len() == 0 {
            assert(s@.subrange(i as int, i as int) =~= pat@);
        }
        i = i + 1;
    }
    false
}

/// The position of the last occurrence of `c` in `s`.
pub open spec fn last_index_of(s: Seq<char>, c: char) -> Option<int>
    decreases s.len(),
{
    if s.len() == 0 {
        None
    } else if s.last() == c {
        Some(s.len() - 1)
    } else {
        last_index_of(s.drop_last(), c)
    }
}

/// The part of `s` before its last `c`, when it holds one (`str::rsplit_once(c)`'s
/// first half).
pub open spec fn before_last(s: Seq<char>, c: char) -> Option<Seq<char>> {
    match last_index_of(s, c) {
        Some(i) => Some(s.take(i)),
        None => None,
    }
}

/// The part of `s` before its last `c`, when it holds one.
pub fn before_last_char(s: &str, c: char) -> (res: Option<String>)
    ensures
        match res {
            Some(r) => before_last(s@, c) == Some(r@),
            None => before_last(s@, c) is None,
        },
{
    let cs = chars_of(s);
    let mut i = cs.len();
    assert(s@.take(i as int) =~= s@);
    while i > 0
        invariant
            i <= cs@.len(),
            cs@ == s@,
            last_index_of(s@.take(i as int), c) == last_index_of(s@, c),
        decreases i,
    {
        assert(s@.take(i as int).drop_last() =~= s@.take(i - 1));
        if cs[i - 1] == c {
            let mut r = String::new();
            let mut j: usize = 0;
            while j < i - 1
                invariant
                    j <= i - 1,
                    i <= cs@.len(),
                    cs@ == s@,
                    r@ == s@.take(j as int),
                decreases i - 1 - j,
            {
                r.push(cs[j]);
                assert(s@.take(j + 1) =~= s@.take(j as int).push(cs@[j as int]));
                j = j + 1;
            }
            return Some(r);
        }
        i = i - 1;
    }
    None
}

/// `parts` joined with `sep` between each two neighbours.
pub open spec fn join_with(parts: Seq<Seq<char>>, sep: Seq<char>) -> Seq<char>
    decreases parts.len(),
{
    if parts.len() == 0 {
        Seq::<char>::empty()
    } else if parts.len() == 1 {
        parts[0]
    } else {
        join_with(parts.drop_last(), sep) + sep + parts.last()
    }
}

/// Joins the strings with `sep` between each two neighbours (`[..].join(sep)`).
pub fn join_strings(parts: &Vec<String>, sep: &str) -> (res: String)
    ensures
        res@ == join_with(parts.deep_view(), sep@),
{
    let ghost dv = parts.deep_view();
    let mut res = String::new();
    let mut i: usize = 0;
    while i < parts.len()
        invariant
            i <= parts.len(),
            dv == parts.deep_view(),
            res@ == join_with(dv.take(i as int), sep@),
        decreases parts.len() - i,
    {
        assert(dv.take(i + 1).drop_last() =~= dv.take(i as int));
        if i > 0 {
            res.push_str(sep);
        }
        res.push_str(parts[i].as_str());
        i = i + 1;
    }
    assert(dv.take(i as int) =~= dv);
    res
}

/// The decimal digit character for `d` (below ten).
pub open spec fn digit_char(d: nat) -> char {
    if d == 0 {
        '0'
    } else if d == 1 {
        '1'
    } else if d == 2 {
        '2'
    } else if d == 3 {
        '3'
    } else if d == 4 {
        '4'
    } else if d == 5 {
        '5'
    } else if d == 6 {
        '6'
    } else if d == 7 {
        '7'
    } else if d == 8 {
        '8'
    } else {
        '9'
    }
}

/// The decimal representation of `n`, without leading zeros.
pub open spec fn decimal(n: nat) -> Seq<char>
    decreases n,
{
    if n < 10 {
        seq![digit_char(n)]
    } else {
        decimal(n / 10).push(digit_char(n % 10))
    }
}

fn digit(d: usize) -> (c: char)
    requires
        d < 10,
    ensures
        c == digit_char(d as nat),
{
    if d == 0 {
        '0'
    } else if d == 1 {
        '1'
    } else if d == 2 {
        '2'
    } else if d == 3 {
        '3'
    } else if d == 4 {
        '4'
    } else if d == 5 {
        '5'
    } else if d == 6 {
        '6'
    } else if d == 7 {
        '7'
    } else if d == 8 {
        '8'
    } else {
        '9'
    }
}

/// Appends the decimal representation of `n`.
pub fn push_decimal(s: &mut String, n: usize)
    ensures
        final(s)@ == old(s)@ + decimal(n as nat),
    decreases n,
{
    if n >= 10 {
        push_decimal(s, n / 10);
    }
    s.push(digit(n % 10));
    assert(s@ =~= old(s)@ + decimal(n as nat));
}

/// A text without newlines is a single line.
pub proof fn lemma_split_single_line(b: Seq<char>)
    requires
        forall|j: int| 0 <= j < b.len() ==> b[j] != '\n',
    ensures
        split_lines(b) == seq![b],
    decreases b.len(),
{
    if b.len() == 0 {
        assert(b =~= Seq::<char>::empty());
    } else {
        assert(b[b.len() - 1] != '\n');
        lemma_split_single_line(b.drop_last());
        assert(b.drop_last().push(b.last()) =~= b);
        assert(split_lines(b) =~= seq![b]);
    }
}

/// Appending a newline and then a newline-free `b` to a text adds `b` as a new last line.
pub proof fn lemma_split_append_line(a: Seq<char>, b: Seq<char>)
    requires
        forall|j: int| 0 <= j < b.len() ==> b[j] != '\n',
    ensures
        split_lines(a + seq!['\n'] + b) == split_lines(a).push(b),
    decreases b.len(),
{
    if b.len() == 0 {
        assert(b =~= Seq::<char>::empty());
        assert(a + seq!['\n'] + b =~= a.push('\n'));
        assert((a + seq!['\n'] + b).drop_last() =~= a);
        assert(split_lines(a + seq!['\n'] + b) =~= split_lines(a).push(b));
    } else {
        let b0 = b.drop_last();
        assert(b[b.len() - 1] != '\n');
        lemma_split_append_line(a, b0);
        let s = a + seq!['\n'] + b;
        assert(s.drop_last() =~= a + seq!['\n'] + b0);
        assert(b0.push(b.last()) =~= b);
        assert(split_lines(s) =~= split_lines(a).push(b));
    }
}

/// Splitting joined newline-free lines gives the lines back.
pub proof fn lemma_split_join(lines: Seq<Seq<char>>)
    requires
        lines.len() >= 1,
        forall|i: int, j: int| 0 <= i < lines.len() && 0 <= j < lines[i].len() ==> lines[i][j] != '\n',
    ensures
        split_lines(join_lines(lines)) == lines,
    decreases lines.len(),
{
    if lines.len() == 1 {
        lemma_split_single_line(lines[0]);
        assert(split_lines(join_lines(lines)) =~= lines);
    } else {
        let pre = lines.drop_last();
        assert forall|i: int, j: int| 0 <= i < pre.len() && 0 <= j < pre[i].len() implies pre[i][j] != '\n' by {
            assert(pre[i] == lines[i]);
        }
        lemma_split_join(pre);
        assert forall|j: int| 0 <= j < lines.last().len() implies lines.last()[j] != '\n' by {
            assert(lines.last() == lines[lines.len() - 1]);
        }
        lemma_split_append_line(join_lines(pre), lines.last());
        assert(pre.push(lines.last()) =~= lines);
    }
}

/// Every page of `chunk_pages` holds between one and `per_page` of the lines, and
/// every page but the last holds exactly `per_page`.
pub proof fn lemma_chunk_page_lines(lines: Seq<Seq<char>>, per_page: nat)
    requires
        per_page > 0,
        forall|i: int, j: int| 0 <= i < lines.len() && 0 <= j < lines[i].len() ==> lines[i][j] != '\n',
    ensures
        forall|k: int|
            0 <= k < chunk_pages(lines, per_page).len() ==> 1 <= #[trigger] split_lines(
                chunk_pages(lines, per_page)[k],
            ).len() <= per_page,
        forall|k: int|
            0 <= k < chunk_pages(lines, per_page).len() - 1 ==> #[trigger] split_lines(
                chunk_pages(lines, per_page)[k],
            ).len() == per_page,
    decreases lines.len(),
{
    let pages = chunk_pages(lines, per_page);
    if lines.len() == 0 {
    } else if lines.len() <= per_page {
        lemma_split_join(lines);
    } else {
        let first = lines.take(per_page as int);
        let rest = lines.skip(per_page as int);
        assert forall|i: int, j: int| 0 <= i < first.len() && 0 <= j < first[i].len() implies first[i][j] != '\n' by {
            assert(first[i] == lines[i]);
        }
        assert forall|i: int, j: int| 0 <= i < rest.len() && 0 <= j < rest[i].len() implies rest[i][j] != '\n' by {
            assert(rest[i] == lines[i + per_page]);
        }
        lemma_split_join(first);
        lemma_chunk_page_lines(rest, per_page);
        let tail = chunk_pages(rest, per_page);
        assert(pages == seq![join_lines(first)] + tail);
        assert forall|k: int| 0 <= k < pages.len() implies 1 <= #[trigger] split_lines(pages[k]).len() <= per_page by {
            if k > 0 {
                assert(pages[k] == tail[k - 1]);
            }
        }
        assert forall|k: int| 0 <= k < pages.len() - 1 implies #[trigger] split_lines(pages[k]).len() == per_page by {
            if k > 0 {
                assert(pages[k] == tail[k - 1]);
            }
        }
    }
}

/// Paging divides a text into pages of `per_page` lines: every page holds between one
/// and `per_page` lines, every page but the last exactly `per_page`.
pub proof fn law_pages_hold_page_height_lines(text: Seq<char>, per_page: nat)
    requires
        per_page > 0,
    ensures
        forall|k: int|
            0 <= k < text_pages(text, per_page).len() ==> 1 <= #[trigger] split_lines(
                text_pages(text, per_page)[k],
            ).len() <= per_page,
        forall|k: int|
            0 <= k < text_pages(text, per_page).len() - 1 ==> #[trigger] split_lines(
                text_pages(text, per_page)[k],
            ).len() == per_page,
{
    lemma_split_lines_no_newline(text);
    lemma_chunk_page_lines(split_lines(text), per_page);
}

/// Search reports matches in reading order without overlap: each match is on a later
/// line than the one before it, or on the same line at least a query's length further on.
pub proof fn law_search_in_reading_order(lines: Seq<Seq<char>>, query: Seq<char>)
    requires
        lines.len() <= usize::MAX,
        forall|i: int|
            0 <= i < lines.len() ==> #[trigger] utf8_bytes(lowercase_of(lines[i])).len()
                <= usize::MAX,
    ensures
        forall|k: int|
            0 <= k < search_lines(lines, query).len() - 1 ==> {
                let (l1, p1) = #[trigger] search_lines(lines, query)[k];
                let (l2, p2) = search_lines(lines, query)[k + 1];
                l1 < l2 || (l1 == l2 && p1 + utf8_bytes(lowercase_of(query)).len() <= p2)
            },
    decreases lines.len(),
{
    if lines.len() > 0 {
        let prev = lines.drop_last();
        assert forall|i: int| 0 <= i < prev.len() implies #[trigger] utf8_bytes(
            lowercase_of(prev[i]),
        ).len() <= usize::MAX by {
            assert(prev[i] == lines[i]);
        }
        law_search_in_reading_order(prev, query);
        law_search_finds_only_occurrences(prev, query);
        let hay = utf8_bytes(lowercase_of(lines.last()));
        let pat = utf8_bytes(lowercase_of(query));
        let m = line_matches(lines.last(), query);
        lemma_matches_from_sound(hay, pat, 0);
        assert(utf8_bytes(lowercase_of(lines[lines.len() - 1])).len() <= usize::MAX);
        let res = search_lines(lines, query);
        let before = search_lines(prev, query);
        let last = (lines.len() - 1) as usize;
        assert forall|k: int| 0 <= k < res.len() - 1 implies {
            let (l1, p1) = #[trigger] res[k];
            let (l2, p2) = res[k + 1];
            l1 < l2 || (l1 == l2 && p1 + pat.len() <= p2)
        } by {
            if k + 1 < before.len() {
                assert(res[k] == before[k]);
                assert(res[k + 1] == before[k + 1]);
            } else if k + 1 == before.len() {
                assert(res[k] == before[k]);
                assert(res[k + 1] == (last, m[0] as usize));
            } else {
                let j = k - before.len();
                assert(res[k] == (last, m[j] as usize));
                assert(res[k + 1] == (last, m[j + 1] as usize));
                assert(m[j] + pat.len() <= m[j + 1]);
                assert(occurs_at(hay, pat, m[j + 1]));
            }
        }
    }
}

} // verus!
