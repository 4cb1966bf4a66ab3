//! Path arithmetic, as `std::path` does it, on paths held as text.

use crate::text::text_of;
use vstd::prelude::*;

verus! {

/// The directory part of `path` as `Path::parent` gives it: the path without
/// its last component, or `None` where it has none to drop.
pub uninterp spec fn parent_of(path: Seq<char>) -> Option<Seq<char>>;

/// `relative` resolved against `base` as `Path::join` does it.
pub uninterp spec fn joined(base: Seq<char>, relative: Seq<char>) -> Seq<char>;

/// The last component of `path` as `Path::file_name` gives it, or `None`
/// where the path ends in `..` or has no component.
pub uninterp spec fn file_name_of(path: Seq<char>) -> Option<Seq<char>>;

/// `Path::parent` reads nothing but the path's text.
#[verifier::external_body]
pub(crate) fn path_parent(path: &str) -> (parent: Option<String>)
    ensures
        text_of(parent) == parent_of(path@),
{
    match std::path::Path::new(path).parent() {
        Some(parent) => Some(parent.to_string_lossy().into_owned()),
        None => None,
    }
}

/// `Path::join` reads nothing but the text of the two paths.
#[verifier::external_body]
pub(crate) fn path_join(base: &str, relative: &str) -> (path: String)
    ensures
        path@ == joined(base@, relative@),
{
    std::path::Path::new(base).join(relative).to_string_lossy().into_owned()
}

/// `Path::file_name` reads nothing but the path's text.
#[verifier::external_body]
pub(crate) fn path_file_name(path: &str) -> (name: Option<String>)
    ensures
        text_of(name) == file_name_of(path@),
{
    match std::path::Path::new(path).file_name() {
        Some(name) => Some(name.to_string_lossy().into_owned()),
        None => None,
    }
}

} // verus!
