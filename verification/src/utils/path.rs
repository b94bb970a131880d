//! File-path helpers: a book's title from its file name, its format from its
//! extension. Paths are held as their text.

use vstd::prelude::*;

use crate::utils::text::{lowercase_of, str_equal, to_lowercase};

verus! {

broadcast use vstd::string::group_string_axioms;

/// What `Path::file_stem` gives for the path a text names.
pub uninterp spec fn path_file_stem(path: Seq<char>) -> Option<Seq<char>>;

/// What `Path::extension` gives for the path a text names.
pub uninterp spec fn path_extension(path: Seq<char>) -> Option<Seq<char>>;

/// `Path::file_stem` of the path the text names: the file name without its last
/// extension, or nothing when the path has no file name.
#[verifier::external_body]
fn file_stem_of(path: &str) -> (res: Option<String>)
    ensures
        match res {
            Some(s) => path_file_stem(path@) == Some(s@),
            None => path_file_stem(path@) is None,
        },
{
    std::path::Path::new(path).file_stem().map(|s| s.to_string_lossy().into_owned())
}

/// `Path::extension` of the path the text names: what follows the file name's last
/// dot, or nothing when there is none to split at.
#[verifier::external_body]
fn extension_of(path: &str) -> (res: Option<String>)
    ensures
        match res {
            Some(s) => path_extension(path@) == Some(s@),
            None => path_extension(path@) is None,
        },
{
    std::path::Path::new(path).extension().map(|s| s.to_string_lossy().into_owned())
}

/// The title a file name gives: its stem, or "Unknown" when it has none.
pub open spec fn stem_or_unknown(path: Seq<char>) -> Seq<char> {
    match path_file_stem(path) {
        Some(s) => s,
        None => "Unknown"@,
    }
}

/// A file's extension, lower-cased, or nothing when it has none.
pub open spec fn lowercase_extension(path: Seq<char>) -> Seq<char> {
    match path_extension(path) {
        Some(e) => lowercase_of(e),
        None => Seq::empty(),
    }
}

/// The file name without its extension ("Unknown" when it has none).
pub fn file_name_without_extension(path: &str) -> (res: String)
    ensures
        res@ == stem_or_unknown(path@),
{
    match file_stem_of(path) {
        Some(s) => s,
        None => String::from_str("Unknown"),
    }
}

/// The file's extension, lower-cased (empty when it has none).
pub fn file_extension(path: &str) -> (res: String)
    ensures
        res@ == lowercase_extension(path@),
{
    match extension_of(path) {
        Some(e) => to_lowercase(e.as_str()),
        None => String::new(),
    }
}

/// An extension names a book format the library lists: txt, epub or mobi, in any case.
pub open spec fn is_book_extension_spec(extension: Seq<char>) -> bool {
    let l = lowercase_of(extension);
    l == "txt"@ || l == "epub"@ || l == "mobi"@
}

/// Whether files with this extension are listed as books.
pub fn is_book_extension(extension: &str) -> (res: bool)
    ensures
        res == is_book_extension_spec(extension@),
{
    let lower = to_lowercase(extension);
    let l = lower.as_str();
    str_equal(l, "txt") || str_equal(l, "epub") || str_equal(l, "mobi")
}

} // verus!
