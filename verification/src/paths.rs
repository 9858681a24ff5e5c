//! Paths of files, as texts.

use vstd::prelude::*;
use crate::module::text_option;

verus! {

/// The parent of a path, as `std::path::Path::parent` gives it.
pub uninterp spec fn parent_path(path: Seq<char>) -> Option<Seq<char>>;

/// A path joined with another, as `std::path::Path::join` gives it.
pub uninterp spec fn joined_path(base: Seq<char>, relative: Seq<char>) -> Seq<char>;

/// Calls `std::path::Path::parent`: the path without its last component,
/// if it has one. The claim is that the result is a function of the path
/// alone, by the rules for paths of the platform; it is named
/// [`parent_path`].
#[verifier::external_body]
pub(crate) fn path_parent(path: &str) -> (parent: Option<String>)
    ensures
        text_option(parent) == parent_path(path@),
{
    match std::path::Path::new(path).parent() {
        Some(parent) => Some(parent.to_string_lossy().into_owned()),
        None => None,
    }
}

/// Calls `std::path::Path::join`: `relative` below `base`, or `relative`
/// alone where it is absolute. The claim is that the result is a function
/// of the two paths alone, by the rules for paths of the platform; it is
/// named [`joined_path`].
#[verifier::external_body]
pub(crate) fn path_join(base: &str, relative: &str) -> (joined: String)
    ensures
        joined@ == joined_path(base@, relative@),
{
    std::path::Path::new(base).join(relative).to_string_lossy().into_owned()
}

} // verus!
