//! EPUB books: locating the package document through `META-INF/container.xml`,
//! reading title and author from it, and assembling chapters in spine order.

use vstd::prelude::*;

use crate::book::content::{bytes_before, chapter_start_offsets, Book, BookContent, BookMetadata};
use crate::book::parser::{BookParser, ParseError};
use crate::utils::text::{
    before_last, before_last_char, contains_str, ends_with_str, join_strings, join_with,
    lowercase_of, seq_contains, seq_ends_with, str_equal, to_lowercase, trim, trim_of,
};

verus! {

broadcast use vstd::string::group_string_axioms;

/// An XML event, as far as EPUB parsing reads it.
#[derive(Debug)]
pub enum XmlItem {
    /// An opening tag: its local name and its attributes as (local name, value) pairs.
    Start { name: String, attributes: Vec<(String, String)> },
    /// A closing tag: its local name.
    End { name: String },
    /// Character data.
    Text { text: String },
    /// Any other event, or the error that ends the stream.
    Other,
}

/// What the events of `xml::reader::EventReader` over the bytes, converted to
/// `XmlItem`s, are.
pub uninterp spec fn xml_items_of(data: Seq<u8>) -> Seq<XmlItem>;

/// Runs `xml::reader::EventReader` over the bytes and converts each event it yields
/// (the stream ends after the first error) to an `XmlItem`. Only that the result is
/// the named item sequence of the bytes is stated.
#[verifier::external_body]
fn xml_items(data: &[u8]) -> (items: Vec<XmlItem>)
    ensures
        items@ == xml_items_of(data@),
{
    xml::reader::EventReader::new(data).into_iter().map(|event| match event {
        Ok(xml::reader::XmlEvent::StartElement { name, attributes, .. }) => XmlItem::Start {
            name: name.local_name,
            attributes: attributes.into_iter().map(|a| (a.name.local_name, a.value)).collect(),
        },
        Ok(xml::reader::XmlEvent::EndElement { name }) => XmlItem::End { name: name.local_name },
        Ok(xml::reader::XmlEvent::Characters(text)) => XmlItem::Text { text },
        Ok(_) | Err(_) => XmlItem::Other,
    }).collect()
}

/// An optional string as an optional character sequence.
pub open spec fn opt_chars(o: Option<String>) -> Option<Seq<char>> {
    match o {
        Some(s) => Some(s@),
        None => None,
    }
}

/// The value of the first attribute named `key`.
pub open spec fn first_attr(attrs: Seq<(String, String)>, key: Seq<char>) -> Option<Seq<char>>
    decreases attrs.len(),
{
    if attrs.len() == 0 {
        None
    } else if attrs[0].0@ == key {
        Some(attrs[0].1@)
    } else {
        first_attr(attrs.drop_first(), key)
    }
}

/// The value of the last attribute named `key`.
pub open spec fn last_attr(attrs: Seq<(String, String)>, key: Seq<char>) -> Option<Seq<char>>
    decreases attrs.len(),
{
    if attrs.len() == 0 {
        None
    } else if attrs.last().0@ == key {
        Some(attrs.last().1@)
    } else {
        last_attr(attrs.drop_last(), key)
    }
}

fn first_attr_value(attrs: &Vec<(String, String)>, key: &str) -> (res: Option<String>)
    ensures
        opt_chars(res) == first_attr(attrs@, key@),
{
    let mut i: usize = 0;
    assert(attrs@.skip(0) =~= attrs@);
    while i < attrs.len()
        invariant
            i <= attrs@.len(),
            first_attr(attrs@.skip(i as int), key@) == first_attr(attrs@, key@),
        decreases attrs.len() - i,
    {
        assert(attrs@.skip(i as int).drop_first() =~= attrs@.skip(i + 1));
        if str_equal(attrs[i].0.as_str(), key) {
            return Some(attrs[i].1.clone());
        }
        i = i + 1;
    }
    None
}

fn last_attr_value(attrs: &Vec<(String, String)>, key: &str) -> (res: Option<String>)
    ensures
        opt_chars(res) == last_attr(attrs@, key@),
{
    let mut i: usize = attrs.len();
    assert(attrs@.take(i as int) =~= attrs@);
    while i > 0
        invariant
            i <= attrs@.len(),
            last_attr(attrs@.take(i as int), key@) == last_attr(attrs@, key@),
        decreases i,
    {
        assert(attrs@.take(i as int).drop_last() =~= attrs@.take(i - 1));
        if str_equal(attrs[i - 1].0.as_str(), key) {
            return Some(attrs[i - 1].1.clone());
        }
        i = i - 1;
    }
    None
}

/// The package-document path that `container.xml` names: the `full-path` of the
/// first `rootfile` inside `rootfiles` that has one, scanning from item `i`.
pub open spec fn opf_path_scan(items: Seq<XmlItem>, i: int, in_rootfiles: bool) -> Option<Seq<char>>
    decreases items.len() - i,
{
    if i < 0 || i >= items.len() {
        None
    } else {
        match items[i] {
            XmlItem::Start { name, attributes } => if name@ == "rootfiles"@ {
                opf_path_scan(items, i + 1, true)
            } else if in_rootfiles && name@ == "rootfile"@ {
                match first_attr(attributes@, "full-path"@) {
                    Some(v) => Some(v),
                    None => opf_path_scan(items, i + 1, in_rootfiles),
                }
            } else {
                opf_path_scan(items, i + 1, in_rootfiles)
            },
            XmlItem::End { name } => opf_path_scan(
                items,
                i + 1,
                if name@ == "rootfiles"@ {
                    false
                } else {
                    in_rootfiles
                },
            ),
            _ => opf_path_scan(items, i + 1, in_rootfiles),
        }
    }
}

/// The title and author after reading items `i..` of the package document: the
/// first non-blank character data (trimmed) after a `title` or `creator` start tag
/// inside `metadata` replaces the current value.
pub open spec fn opf_meta_scan(
    items: Seq<XmlItem>,
    i: int,
    in_metadata: bool,
    in_title: bool,
    in_creator: bool,
    title: Seq<char>,
    author: Seq<char>,
) -> (Seq<char>, Seq<char>)
    decreases items.len() - i,
{
    if i < 0 || i >= items.len() {
        (title, author)
    } else {
        match items[i] {
            XmlItem::Start { name, .. } => if name@ == "metadata"@ {
                opf_meta_scan(items, i + 1, true, in_title, in_creator, title, author)
            } else if in_metadata && name@ == "title"@ {
                opf_meta_scan(items, i + 1, in_metadata, true, in_creator, title, author)
            } else if in_metadata && name@ == "creator"@ {
                opf_meta_scan(items, i + 1, in_metadata, in_title, true, title, author)
            } else {
                opf_meta_scan(items, i + 1, in_metadata, in_title, in_creator, title, author)
            },
            XmlItem::Text { text } => if in_title {
                let t = crate::utils::text::trim_of(text@);
                opf_meta_scan(
                    items,
                    i + 1,
                    in_metadata,
                    false,
                    in_creator,
                    if t.len() > 0 {
                        t
                    } else {
                        title
                    },
                    author,
                )
            } else if in_creator {
                let t = crate::utils::text::trim_of(text@);
                opf_meta_scan(
                    items,
                    i + 1,
                    in_metadata,
                    in_title,
                    false,
                    title,
                    if t.len() > 0 {
                        t
                    } else {
                        author
                    },
                )
            } else {
                opf_meta_scan(items, i + 1, in_metadata, in_title, in_creator, title, author)
            },
            XmlItem::End { name } => if name@ == "metadata"@ {
                opf_meta_scan(items, i + 1, false, in_title, in_creator, title, author)
            } else if in_metadata && name@ == "title"@ {
                opf_meta_scan(items, i + 1, in_metadata, false, in_creator, title, author)
            } else if in_metadata && name@ == "creator"@ {
                opf_meta_scan(items, i + 1, in_metadata, in_title, false, title, author)
            } else {
                opf_meta_scan(items, i + 1, in_metadata, in_title, in_creator, title, author)
            },
            XmlItem::Other => opf_meta_scan(
                items,
                i + 1,
                in_metadata,
                in_title,
                in_creator,
                title,
                author,
            ),
        }
    }
}

/// A manifest item is kept when its media type mentions HTML, or, lacking a media
/// type, when its file name ends in `.html`, `.xhtml` or `.htm`.
pub open spec fn manifest_item_kept(href: Seq<char>, media_type: Option<Seq<char>>) -> bool {
    match media_type {
        Some(m) => seq_contains(m, "html"@) || seq_contains(m, "xhtml"@),
        None => seq_ends_with(href, ".html"@) || seq_ends_with(href, ".xhtml"@) || seq_ends_with(
            href,
            ".htm"@,
        ),
    }
}

/// The manifest entry (id, href) an `item` start tag contributes, if any.
pub open spec fn manifest_entry(attrs: Seq<(String, String)>) -> Option<(Seq<char>, Seq<char>)> {
    match (last_attr(attrs, "id"@), last_attr(attrs, "href"@)) {
        (Some(id), Some(href)) => if manifest_item_kept(href, last_attr(attrs, "media-type"@)) {
            Some((id, href))
        } else {
            None
        },
        _ => None,
    }
}

/// The reading order (spine `itemref` ids) and the HTML manifest entries of the
/// package document, from item `i` on; manifest entries in document order.
pub open spec fn spine_manifest_scan(
    items: Seq<XmlItem>,
    i: int,
    in_spine: bool,
    in_manifest: bool,
    spine: Seq<Seq<char>>,
    manifest: Seq<(Seq<char>, Seq<char>)>,
) -> (Seq<Seq<char>>, Seq<(Seq<char>, Seq<char>)>)
    decreases items.len() - i,
{
    if i < 0 || i >= items.len() {
        (spine, manifest)
    } else {
        match items[i] {
            XmlItem::Start { name, attributes } => if name@ == "spine"@ {
                spine_manifest_scan(items, i + 1, true, in_manifest, spine, manifest)
            } else if name@ == "manifest"@ {
                spine_manifest_scan(items, i + 1, in_spine, true, spine, manifest)
            } else if name@ == "itemref"@ && in_spine {
                spine_manifest_scan(
                    items,
                    i + 1,
                    in_spine,
                    in_manifest,
                    match first_attr(attributes@, "idref"@) {
                        Some(v) => spine.push(v),
                        None => spine,
                    },
                    manifest,
                )
            } else if name@ == "item"@ && in_manifest {
                spine_manifest_scan(
                    items,
                    i + 1,
                    in_spine,
                    in_manifest,
                    spine,
                    match manifest_entry(attributes@) {
                        Some(e) => manifest.push(e),
                        None => manifest,
                    },
                )
            } else {
                spine_manifest_scan(items, i + 1, in_spine, in_manifest, spine, manifest)
            },
            XmlItem::End { name } => if name@ == "spine"@ {
                spine_manifest_scan(items, i + 1, false, in_manifest, spine, manifest)
            } else if name@ == "manifest"@ {
                spine_manifest_scan(items, i + 1, in_spine, false, spine, manifest)
            } else {
                spine_manifest_scan(items, i + 1, in_spine, in_manifest, spine, manifest)
            },
            _ => spine_manifest_scan(items, i + 1, in_spine, in_manifest, spine, manifest),
        }
    }
}

/// The href the manifest maps an id to: the last entry for that id wins.
pub open spec fn manifest_lookup(manifest: Seq<(Seq<char>, Seq<char>)>, id: Seq<char>) -> Option<
    Seq<char>,
>
    decreases manifest.len(),
{
    if manifest.len() == 0 {
        None
    } else if manifest.last().0 == id {
        Some(manifest.last().1)
    } else {
        manifest_lookup(manifest.drop_last(), id)
    }
}

/// Pairs of strings as pairs of character sequences.
pub open spec fn pairs_view(v: Seq<(String, String)>) -> Seq<(Seq<char>, Seq<char>)> {
    v.map_values(|p: (String, String)| (p.0@, p.1@))
}

/// The package-document path named in the container document's events.
fn extract_opf_path(items: &Vec<XmlItem>) -> (res: Option<String>)
    ensures
        opt_chars(res) == opf_path_scan(items@, 0, false),
{
    let mut in_rootfiles = false;
    let mut i: usize = 0;
    while i < items.len()
        invariant
            i <= items@.len(),
            opf_path_scan(items@, i as int, in_rootfiles) == opf_path_scan(items@, 0, false),
        decreases items.len() - i,
    {
        match &items[i] {
            XmlItem::Start { name, attributes } => {
                if str_equal(name.as_str(), "rootfiles") {
                    in_rootfiles = true;
                } else if in_rootfiles && str_equal(name.as_str(), "rootfile") {
                    let v = first_attr_value(attributes, "full-path");
                    if v.is_some() {
                        return v;
                    }
                }
            },
            XmlItem::End { name } => {
                if str_equal(name.as_str(), "rootfiles") {
                    in_rootfiles = false;
                }
            },
            _ => {},
        }
        i = i + 1;
    }
    None
}

/// The title and author that the package document's events give, starting from
/// `title` and `author`.
fn scan_opf_metadata(items: &Vec<XmlItem>, title: &mut String, author: &mut String)
    ensures
        (final(title)@, final(author)@) == opf_meta_scan(
            items@,
            0,
            false,
            false,
            false,
            old(title)@,
            old(author)@,
        ),
{
    let mut in_metadata = false;
    let mut in_title = false;
    let mut in_creator = false;
    let mut i: usize = 0;
    while i < items.len()
        invariant
            i <= items@.len(),
            opf_meta_scan(items@, i as int, in_metadata, in_title, in_creator, title@, author@)
                == opf_meta_scan(items@, 0, false, false, false, old(title)@, old(author)@),
        decreases items.len() - i,
    {
        match &items[i] {
            XmlItem::Start { name, .. } => {
                if str_equal(name.as_str(), "metadata") {
                    in_metadata = true;
                } else if in_metadata {
                    if str_equal(name.as_str(), "title") {
                        in_title = true;
                    } else if str_equal(name.as_str(), "creator") {
                        in_creator = true;
                    }
                }
            },
            XmlItem::Text { text } => {
                if in_title {
                    let trimmed = crate::utils::text::trim(text.as_str());
                    if !trimmed.is_empty() {
                        *title = String::from_str(trimmed);
                    }
                    in_title = false;
                } else if in_creator {
                    let trimmed = crate::utils::text::trim(text.as_str());
                    if !trimmed.is_empty() {
                        *author = String::from_str(trimmed);
                    }
                    in_creator = false;
                }
            },
            XmlItem::End { name } => {
                if str_equal(name.as_str(), "metadata") {
                    in_metadata = false;
                } else if in_metadata {
                    if str_equal(name.as_str(), "title") {
                        in_title = false;
                    } else if str_equal(name.as_str(), "creator") {
                        in_creator = false;
                    }
                }
            },
            XmlItem::Other => {},
        }
        i = i + 1;
    }
}

/// Whether a manifest item with this href and media type holds HTML content.
fn is_html_item(href: &str, media_type: &Option<String>) -> (res: bool)
    ensures
        res == manifest_item_kept(href@, opt_chars(*media_type)),
{
    match media_type {
        Some(m) => contains_str(m.as_str(), "html") || contains_str(m.as_str(), "xhtml"),
        None => ends_with_str(href, ".html") || ends_with_str(href, ".xhtml") || ends_with_str(
            href,
            ".htm",
        ),
    }
}

/// The reading order (spine ids) and the HTML manifest entries (id, href) of the
/// package document's events.
fn scan_spine_and_manifest(items: &Vec<XmlItem>) -> (res: (Vec<String>, Vec<(String, String)>))
    ensures
        (res.0.deep_view(), pairs_view(res.1@)) == spine_manifest_scan(
            items@,
            0,
            false,
            false,
            Seq::empty(),
            Seq::empty(),
        ),
{
    let mut spine: Vec<String> = Vec::new();
    let mut manifest: Vec<(String, String)> = Vec::new();
    let mut in_spine = false;
    let mut in_manifest = false;
    let mut i: usize = 0;
    assert(spine.deep_view() =~= Seq::<Seq<char>>::empty());
    assert(pairs_view(manifest@) =~= Seq::<(Seq<char>, Seq<char>)>::empty());
    while i < items.len()
        invariant
            i <= items@.len(),
            spine_manifest_scan(
                items@,
                i as int,
                in_spine,
                in_manifest,
                spine.deep_view(),
                pairs_view(manifest@),
            ) == spine_manifest_scan(items@, 0, false, false, Seq::empty(), Seq::empty()),
        decreases items.len() - i,
    {
        match &items[i] {
            XmlItem::Start { name, attributes } => {
                let local = name.as_str();
                if str_equal(local, "spine") {
                    in_spine = true;
                } else if str_equal(local, "manifest") {
                    in_manifest = true;
                } else if str_equal(local, "itemref") && in_spine {
                    match first_attr_value(attributes, "idref") {
                        Some(v) => {
                            let ghost before = spine.deep_view();
                            spine.push(v);
                            assert(spine.deep_view() =~= before.push(v@));
                        },
                        None => {},
                    }
                } else if str_equal(local, "item") && in_manifest {
                    let id = last_attr_value(attributes, "id");
                    let href = last_attr_value(attributes, "href");
                    let media_type = last_attr_value(attributes, "media-type");
                    match (id, href) {
                        (Some(item_id), Some(item_href)) => {
                            if is_html_item(item_href.as_str(), &media_type) {
                                let ghost before = pairs_view(manifest@);
                                let ghost entry = (item_id@, item_href@);
                                manifest.push((item_id, item_href));
                                assert(pairs_view(manifest@) =~= before.push(entry));
                            }
                        },
                        _ => {},
                    }
                }
            },
            XmlItem::End { name } => {
                if str_equal(name.as_str(), "spine") {
                    in_spine = false;
                } else if str_equal(name.as_str(), "manifest") {
                    in_manifest = false;
                }
            },
            _ => {},
        }
        i = i + 1;
    }
    (spine, manifest)
}

/// The href the manifest maps `id` to (the last entry for it).
pub fn lookup_manifest(manifest: &Vec<(String, String)>, id: &str) -> (res: Option<String>)
    ensures
        opt_chars(res) == manifest_lookup(pairs_view(manifest@), id@),
{
    let mut i: usize = manifest.len();
    assert(pairs_view(manifest@).take(i as int) =~= pairs_view(manifest@));
    while i > 0
        invariant
            i <= manifest@.len(),
            manifest_lookup(pairs_view(manifest@).take(i as int), id@) == manifest_lookup(
                pairs_view(manifest@),
                id@,
            ),
        decreases i,
    {
        assert(pairs_view(manifest@).take(i as int).drop_last() =~= pairs_view(manifest@).take(
            i - 1,
        ));
        if str_equal(manifest[i - 1].0.as_str(), id) {
            return Some(manifest[i - 1].1.clone());
        }
        i = i - 1;
    }
    None
}

#[verifier::external_type_specification]
#[verifier::external_body]
#[verifier::reject_recursive_types(R)]
pub struct ExZipArchive<R>(zip::ZipArchive<R>);

#[verifier::external_type_specification]
#[verifier::external_body]
#[verifier::reject_recursive_types(T)]
pub struct ExCursor<T>(std::io::Cursor<T>);

#[verifier::external_type_specification]
#[verifier::external_body]
pub struct ExZipError(zip::result::ZipError);

/// Whether `zip::ZipArchive::new` accepts the bytes as an archive.
pub uninterp spec fn zip_opens(bytes: Seq<u8>) -> bool;

/// The bytes an opened archive was read from.
pub uninterp spec fn archive_source(archive: zip::ZipArchive<std::io::Cursor<Vec<u8>>>) -> Seq<u8>;

/// What `ZipArchive::len` returns for the archive read from the bytes.
pub uninterp spec fn zip_entry_count(bytes: Seq<u8>) -> usize;

/// What `ZipArchive::name_for_index` gives for an entry, when the entry exists and
/// its name decodes.
pub uninterp spec fn zip_name_at(bytes: Seq<u8>, index: usize) -> Option<Seq<char>>;

/// What `ZipArchive::index_for_name` returns for a name.
pub uninterp spec fn zip_index_of(bytes: Seq<u8>, name: Seq<char>) -> Option<usize>;

/// Reading an entry with `ZipArchive::by_index` and `read_to_end`: `None` when the
/// entry cannot be opened, `Some(None)` when reading it fails, its bytes otherwise.
pub uninterp spec fn zip_read_at(bytes: Seq<u8>, index: usize) -> Option<Option<Seq<u8>>>;

/// What `html2text::from_read` returns for the HTML bytes at the given width, when it succeeds.
pub uninterp spec fn html_text_of(bytes: Seq<u8>, width: usize) -> Option<Seq<char>>;

/// The width, in columns, that HTML chapters are rendered to.
pub const HTML_TEXT_WIDTH: usize = 80;

/// `zip::ZipArchive::new` over a copy of the bytes: succeeds exactly when the named
/// check holds of the bytes, and the archive is then the one read from them.
#[verifier::external_body]
fn open_archive(content: &[u8]) -> (res: Result<
    zip::ZipArchive<std::io::Cursor<Vec<u8>>>,
    zip::result::ZipError,
>)
    ensures
        res is Ok <==> zip_opens(content@),
        res matches Ok(a) ==> archive_source(a) == content@,
{
    zip::ZipArchive::new(std::io::Cursor::new(content.to_vec()))
}

/// `ZipArchive::len`: the number of entries of the archive.
#[verifier::external_body]
fn entry_count(zip: &zip::ZipArchive<std::io::Cursor<Vec<u8>>>) -> (n: usize)
    ensures
        n == zip_entry_count(archive_source(*zip)),
{
    zip.len()
}

/// `ZipArchive::name_for_index`: the entry's name, when it exists and decodes.
#[verifier::external_body]
fn entry_name(zip: &zip::ZipArchive<std::io::Cursor<Vec<u8>>>, index: usize) -> (res: Option<String>)
    ensures
        opt_chars(res) == zip_name_at(archive_source(*zip), index),
{
    match zip.name_for_index(index) {
        Some(Ok(name)) => Some(name.into_owned()),
        Some(Err(_)) | None => None,
    }
}

/// `ZipArchive::index_for_name`: the index of the entry with that name.
#[verifier::external_body]
fn entry_index(zip: &zip::ZipArchive<std::io::Cursor<Vec<u8>>>, name: &str) -> (res: Option<usize>)
    ensures
        res == zip_index_of(archive_source(*zip), name@),
{
    zip.index_for_name(name)
}

/// How reading an archive entry went.
pub enum EntryRead {
    /// The entry could not be opened.
    Missing,
    /// The entry opened but reading it failed.
    Unreadable,
    /// The entry's bytes.
    Bytes(Vec<u8>),
}

impl EntryRead {
    pub open spec fn model(&self) -> Option<Option<Seq<u8>>> {
        match self {
            EntryRead::Missing => None,
            EntryRead::Unreadable => Some(None),
            EntryRead::Bytes(b) => Some(Some(b@)),
        }
    }
}

/// `ZipArchive::by_index` followed by `read_to_end` on the entry: the named read
/// result. The archive still stands for the same bytes afterwards.
#[verifier::external_body]
fn read_entry(zip: &mut zip::ZipArchive<std::io::Cursor<Vec<u8>>>, index: usize) -> (res: EntryRead)
    ensures
        res.model() == zip_read_at(archive_source(*old(zip)), index),
        archive_source(*final(zip)) == archive_source(*old(zip)),
{
    match zip.by_index(index) {
        Ok(mut file) => {
            let mut data = Vec::new();
            match std::io::Read::read_to_end(&mut file, &mut data) {
                Ok(_) => EntryRead::Bytes(data),
                Err(_) => EntryRead::Unreadable,
            }
        },
        Err(_) => EntryRead::Missing,
    }
}

/// `html2text::from_read` over the bytes at the given width, when it succeeds.
#[verifier::external_body]
fn html_to_text(data: &[u8], width: usize) -> (res: Option<String>)
    ensures
        opt_chars(res) == html_text_of(data@, width),
{
    html2text::from_read(data, width).ok()
}

/// Reading an entry by name: `by_name` is `index_for_name` followed by `by_index`.
pub open spec fn read_named(bytes: Seq<u8>, name: Seq<char>) -> Option<Option<Seq<u8>>> {
    match zip_index_of(bytes, name) {
        Some(i) => zip_read_at(bytes, i),
        None => None,
    }
}

/// The chapter text an HTML entry gives: its rendering, unless that is blank.
pub open spec fn html_chapter(data: Seq<u8>) -> Option<Seq<char>> {
    match html_text_of(data, HTML_TEXT_WIDTH) {
        Some(t) => if trim_of(t).len() > 0 {
            Some(t)
        } else {
            None
        },
        None => None,
    }
}

/// An entry name, lower-cased, ends in `.html`, `.xhtml` or `.htm`.
pub open spec fn is_html_name(name: Seq<char>) -> bool {
    let l = lowercase_of(name);
    seq_ends_with(l, ".html"@) || seq_ends_with(l, ".xhtml"@) || seq_ends_with(l, ".htm"@)
}

/// The chapter that the entry at `index` contributes when every HTML entry is read.
pub open spec fn entry_chapter(bytes: Seq<u8>, index: usize) -> Seq<Seq<char>> {
    match zip_name_at(bytes, index) {
        Some(name) => if is_html_name(name) {
            match zip_read_at(bytes, index) {
                Some(Some(data)) => match html_chapter(data) {
                    Some(t) => seq![t],
                    None => Seq::empty(),
                },
                _ => Seq::empty(),
            }
        } else {
            Seq::empty()
        },
        None => Seq::empty(),
    }
}

/// The chapters of the first `n` entries, in archive order.
pub open spec fn all_html_chapters(bytes: Seq<u8>, n: int) -> Seq<Seq<char>>
    decreases n,
{
    if n <= 0 {
        Seq::empty()
    } else {
        all_html_chapters(bytes, n - 1) + entry_chapter(bytes, (n - 1) as usize)
    }
}

/// The archive path of a manifest href: relative to the package document's directory.
pub open spec fn content_path(opf_dir: Seq<char>, href: Seq<char>) -> Seq<char> {
    if opf_dir.len() == 0 {
        href
    } else {
        opf_dir + "/"@ + href
    }
}

/// The chapter a spine id contributes.
pub open spec fn spine_item_chapter(
    bytes: Seq<u8>,
    manifest: Seq<(Seq<char>, Seq<char>)>,
    opf_dir: Seq<char>,
    idref: Seq<char>,
) -> Seq<Seq<char>> {
    match manifest_lookup(manifest, idref) {
        Some(href) => match read_named(bytes, content_path(opf_dir, href)) {
            Some(Some(data)) => match html_chapter(data) {
                Some(t) => seq![t],
                None => Seq::empty(),
            },
            _ => Seq::empty(),
        },
        None => Seq::empty(),
    }
}

/// The chapters of the spine, in reading order.
pub open spec fn spine_chapters(
    bytes: Seq<u8>,
    spine: Seq<Seq<char>>,
    manifest: Seq<(Seq<char>, Seq<char>)>,
    opf_dir: Seq<char>,
) -> Seq<Seq<char>>
    decreases spine.len(),
{
    if spine.len() == 0 {
        Seq::empty()
    } else {
        spine_chapters(bytes, spine.drop_last(), manifest, opf_dir) + spine_item_chapter(
            bytes,
            manifest,
            opf_dir,
            spine.last(),
        )
    }
}

/// The title, author and chapters an EPUB archive's bytes give, or why they give none.
pub open spec fn epub_outcome(bytes: Seq<u8>) -> Result<(Seq<char>, Seq<char>, Seq<Seq<char>>), ParseError> {
    if !zip_opens(bytes) {
        Err(ParseError::InvalidArchive)
    } else {
        let all = all_html_chapters(bytes, zip_entry_count(bytes) as int);
        let container = read_named(bytes, "META-INF/container.xml"@);
        if container == Some(None::<Seq<u8>>) {
            Err(ParseError::EntryUnreadable)
        } else {
            let opf_path = match container {
                Some(Some(d)) => opf_path_scan(xml_items_of(d), 0, false),
                _ => None,
            };
            match opf_path {
                None => Ok(("Unknown Title"@, "Unknown Author"@, all)),
                Some(opf) => {
                    let opf_read = read_named(bytes, opf);
                    if opf_read == Some(None::<Seq<u8>>) {
                        Err(ParseError::EntryUnreadable)
                    } else {
                        let opf_bytes = match opf_read {
                            Some(Some(d)) => d,
                            _ => Seq::empty(),
                        };
                        let meta = match opf_read {
                            Some(Some(d)) => opf_meta_scan(
                                xml_items_of(d),
                                0,
                                false,
                                false,
                                false,
                                "Unknown Title"@,
                                "Unknown Author"@,
                            ),
                            _ => ("Unknown Title"@, "Unknown Author"@),
                        };
                        let sm = spine_manifest_scan(
                            xml_items_of(opf_bytes),
                            0,
                            false,
                            false,
                            Seq::empty(),
                            Seq::empty(),
                        );
                        let opf_dir = match before_last(opf, '/') {
                            Some(d) => d,
                            None => Seq::empty(),
                        };
                        let from_spine = if sm.0.len() > 0 {
                            spine_chapters(bytes, sm.0, sm.1, opf_dir)
                        } else {
                            Seq::empty()
                        };
                        Ok(
                            (
                                meta.0,
                                meta.1,
                                if from_spine.len() > 0 {
                                    from_spine
                                } else {
                                    all
                                },
                            ),
                        )
                    }
                },
            }
        }
    }
}

fn read_named_entry(zip: &mut zip::ZipArchive<std::io::Cursor<Vec<u8>>>, name: &str) -> (res: EntryRead)
    ensures
        res.model() == read_named(archive_source(*old(zip)), name@),
        archive_source(*final(zip)) == archive_source(*old(zip)),
{
    match entry_index(zip, name) {
        Some(i) => read_entry(zip, i),
        None => EntryRead::Missing,
    }
}

/// The chapter text of an HTML entry, unless it renders blank.
fn chapter_from_html(data: &[u8]) -> (res: Option<String>)
    ensures
        opt_chars(res) == html_chapter(data@),
{
    match html_to_text(data, HTML_TEXT_WIDTH) {
        Some(text) => {
            if !trim(text.as_str()).is_empty() {
                Some(text)
            } else {
                None
            }
        },
        None => None,
    }
}

impl EpubParser {
    /// The package-document path that a `container.xml` document names.
    pub fn extract_opf_path_from_bytes(data: &[u8]) -> (res: Option<String>)
        ensures
            opt_chars(res) == opf_path_scan(xml_items_of(data@), 0, false),
    {
        let items = xml_items(data);
        extract_opf_path(&items)
    }

    /// Takes title and author from a package document's metadata, where it gives them.
    pub fn parse_opf_from_bytes(data: &[u8], metadata: &mut BookMetadata)
        ensures
            (final(metadata).title@, final(metadata).author@) == opf_meta_scan(
                xml_items_of(data@),
                0,
                false,
                false,
                false,
                old(metadata).title@,
                old(metadata).author@,
            ),
            final(metadata).format == old(metadata).format,
    {
        let items = xml_items(data);
        scan_opf_metadata(&items, &mut metadata.title, &mut metadata.author);
    }

    /// The reading order (spine ids) and the HTML manifest entries (id, href) of a
    /// package document.
    pub fn parse_spine_and_manifest_from_bytes(data: &[u8]) -> (res: (Vec<String>, Vec<(String, String)>))
        ensures
            (res.0.deep_view(), pairs_view(res.1@)) == spine_manifest_scan(
                xml_items_of(data@),
                0,
                false,
                false,
                Seq::empty(),
                Seq::empty(),
            ),
    {
        let items = xml_items(data);
        scan_spine_and_manifest(&items)
    }

    /// The chapters of every HTML entry of the archive, in archive order.
    fn extract_all_html_content(
        zip: &mut zip::ZipArchive<std::io::Cursor<Vec<u8>>>,
        _opf_dir: &str,
    ) -> (content: Vec<String>)
        ensures
            content.deep_view() == all_html_chapters(
                archive_source(*old(zip)),
                zip_entry_count(archive_source(*old(zip))) as int,
            ),
            archive_source(*final(zip)) == archive_source(*old(zip)),
    {
        let ghost src = archive_source(*zip);
        let mut content: Vec<String> = Vec::new();
        let n = entry_count(zip);
        let mut i: usize = 0;
        while i < n
            invariant
                i <= n,
                n == zip_entry_count(src),
                archive_source(*zip) == src,
                content.deep_view() == all_html_chapters(src, i as int),
            decreases n - i,
        {
            let ghost before = content.deep_view();
            match entry_name(zip, i) {
                Some(name) => {
                    let lower = to_lowercase(name.as_str());
                    let l = lower.as_str();
                    if ends_with_str(l, ".html") || ends_with_str(l, ".xhtml") || ends_with_str(
                        l,
                        ".htm",
                    ) {
                        match read_entry(zip, i) {
                            EntryRead::Bytes(data) => {
                                match chapter_from_html(data.as_slice()) {
                                    Some(text) => {
                                        content.push(text);
                                    },
                                    None => {},
                                }
                            },
                            _ => {},
                        }
                    }
                },
                None => {},
            }
            assert(content.deep_view() =~= before + entry_chapter(src, i));
            i = i + 1;
        }
        content
    }

    /// The chapters of the spine entries, in reading order.
    fn spine_content(
        zip: &mut zip::ZipArchive<std::io::Cursor<Vec<u8>>>,
        spine: &Vec<String>,
        manifest: &Vec<(String, String)>,
        opf_dir: &str,
    ) -> (chapters: Vec<String>)
        ensures
            chapters.deep_view() == spine_chapters(
                archive_source(*old(zip)),
                spine.deep_view(),
                pairs_view(manifest@),
                opf_dir@,
            ),
            archive_source(*final(zip)) == archive_source(*old(zip)),
    {
        let ghost src = archive_source(*zip);
        let ghost sv = spine.deep_view();
        let mut chapters: Vec<String> = Vec::new();
        let mut i: usize = 0;
        while i < spine.len()
            invariant
                i <= spine.len(),
                sv == spine.deep_view(),
                archive_source(*zip) == src,
                chapters.deep_view() == spine_chapters(src, sv.take(i as int), pairs_view(manifest@), opf_dir@),
            decreases spine.len() - i,
        {
            let ghost before = chapters.deep_view();
            assert(sv.take(i + 1).drop_last() =~= sv.take(i as int));
            match lookup_manifest(manifest, spine[i].as_str()) {
                Some(href) => {
                    let mut path = String::new();
                    if opf_dir.is_empty() {
                        path.push_str(href.as_str());
                    } else {
                        path.push_str(opf_dir);
                        path.push('/');
                        path.push_str(href.as_str());
                        assert(path@ =~= opf_dir@ + "/"@ + href@) by {
                            reveal_strlit("/");
                        }
                    }
                    match read_named_entry(zip, path.as_str()) {
                        EntryRead::Bytes(data) => {
                            match chapter_from_html(data.as_slice()) {
                                Some(text) => {
                                    chapters.push(text);
                                },
                                None => {},
                            }
                        },
                        _ => {},
                    }
                },
                None => {},
            }
            assert(chapters.deep_view() =~= before + spine_item_chapter(
                src,
                pairs_view(manifest@),
                opf_dir@,
                sv[i as int],
            ));
            i = i + 1;
        }
        assert(sv.take(i as int) =~= sv);
        chapters
    }
}

/// What reading an EPUB archive gives (see `epub_outcome`): title and author from
/// the package document, chapters in spine order or, failing that, every HTML entry in
/// archive order; the full text is the chapters joined with blank lines; more than one
/// chapter are kept as chapters, with their offsets. Errors are those of the outcome,
/// or `TooLarge` when the chapters' byte lengths do not sum within a `usize`.
pub open spec fn epub_parse_result(content: Seq<u8>, res: Result<Book, ParseError>) -> bool {
    match res {
        Ok(book) => match epub_outcome(content) {
            Ok((title, author, chapters)) => {
                &&& book.metadata.title@ == title
                &&& book.metadata.author@ == author
                &&& book.metadata.format@ == "epub"@
                &&& book.content.full_text@ == join_with(chapters, "\n\n"@)
                &&& if chapters.len() > 1 {
                    &&& bytes_before(chapters, chapters.len() as int) <= usize::MAX
                    &&& book.content.chapters.deep_view() == chapters
                    &&& book.content.chapter_offsets@ == chapter_start_offsets(chapters)
                } else {
                    &&& book.content.chapters.deep_view() == seq![book.content.full_text@]
                    &&& book.content.chapter_offsets@ == seq![0usize]
                }
            },
            Err(_) => false,
        },
        Err(e) => match epub_outcome(content) {
            Ok((_, _, chapters)) => e == ParseError::TooLarge && chapters.len() > 1 && bytes_before(
                chapters,
                chapters.len() as int,
            ) > usize::MAX,
            Err(e2) => e == e2,
        },
    }
}

#[derive(Debug)]
pub struct EpubParser;

impl EpubParser {
    pub fn new() -> (res: Self) {
        Self
    }
}

impl Default for EpubParser {
    fn default() -> (res: Self) {
        Self::new()
    }
}

impl BookParser for EpubParser {
    open spec fn accepts(&self, content: Seq<u8>) -> bool {
        true
    }

    /// Reads the archive (see `epub_outcome`): title and author from the package
    /// document, chapters in spine order, or, failing that, every HTML entry in archive
    /// order; the full text is the chapters joined with blank lines.
    fn parse(&self, content: &[u8]) -> (res: Result<Book, ParseError>)
        ensures
            epub_parse_result(content@, res),
    {
        let mut zip = match open_archive(content) {
            Ok(z) => z,
            Err(_) => {
                return Err(ParseError::InvalidArchive);
            },
        };
        let ghost src = content@;
        let mut metadata = BookMetadata {
            title: String::from_str("Unknown Title"),
            author: String::from_str("Unknown Author"),
            format: String::from_str("epub"),
        };
        let mut opf_path: Option<String> = None;
        match read_named_entry(&mut zip, "META-INF/container.xml") {
            EntryRead::Bytes(container_content) => {
                opf_path = Self::extract_opf_path_from_bytes(container_content.as_slice());
            },
            EntryRead::Unreadable => {
                return Err(ParseError::EntryUnreadable);
            },
            EntryRead::Missing => {},
        }
        let mut chapters: Vec<String> = Vec::new();
        match opf_path {
            Some(opf_path_str) => {
                let mut opf_content: Vec<u8> = Vec::new();
                match read_named_entry(&mut zip, opf_path_str.as_str()) {
                    EntryRead::Bytes(data) => {
                        opf_content = data;
                        Self::parse_opf_from_bytes(opf_content.as_slice(), &mut metadata);
                    },
                    EntryRead::Unreadable => {
                        return Err(ParseError::EntryUnreadable);
                    },
                    EntryRead::Missing => {},
                }
                let (spine, manifest) = Self::parse_spine_and_manifest_from_bytes(
                    opf_content.as_slice(),
                );
                let opf_dir = match before_last_char(opf_path_str.as_str(), '/') {
                    Some(d) => d,
                    None => String::new(),
                };
                if spine.len() > 0 {
                    chapters = Self::spine_content(&mut zip, &spine, &manifest, opf_dir.as_str());
                }
                if chapters.len() == 0 {
                    chapters = Self::extract_all_html_content(&mut zip, opf_dir.as_str());
                }
            },
            None => {},
        }
        if chapters.len() == 0 {
            chapters = Self::extract_all_html_content(&mut zip, "");
        }
        assert(chapters.deep_view() == epub_outcome(src)->Ok_0.2);
        let full_text = join_strings(&chapters, "\n\n");
        let book_content = if chapters.len() > 1 {
            if !BookContent::chapters_fit(&chapters) {
                return Err(ParseError::TooLarge);
            }
            BookContent::new_with_chapters(full_text, chapters)
        } else {
            BookContent::new(full_text)
        };
        Ok(Book::new(metadata, book_content))
    }
}

} // verus!
