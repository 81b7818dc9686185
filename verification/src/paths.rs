//! Parts of paths, as the standard library has them.

use vstd::prelude::*;

verus! {

/// What `std::path::Path::parent` gives for a path.
pub uninterp spec fn parent_of(path: Seq<char>) -> Option<Seq<char>>;

/// What `std::path::Path::file_name` gives for a path.
pub uninterp spec fn file_name_of(path: Seq<char>) -> Option<Seq<char>>;

/// Calls `std::path::Path::parent`: the path without its last part, if it has one.
///
/// Trusted: the result depends on the path alone, and the empty path has no parent.
#[verifier::external_body]
pub(crate) fn parent(path: &str) -> (r: Option<String>)
    ensures
        match r {
            Some(dir) => parent_of(path@) == Some(dir@),
            None => parent_of(path@) is None,
        },
        path@.len() == 0 ==> r is None,
{
    match std::path::Path::new(path).parent() {
        Some(dir) => Some(dir.to_string_lossy().to_string()),
        None => None,
    }
}

/// Calls `std::path::Path::file_name`: the last part of the path, if it has one.
///
/// Trusted: the result depends on the path alone.
#[verifier::external_body]
pub(crate) fn file_name(path: &str) -> (r: Option<String>)
    ensures
        match r {
            Some(name) => file_name_of(path@) == Some(name@),
            None => file_name_of(path@) is None,
        },
{
    match std::path::Path::new(path).file_name() {
        Some(name) => Some(name.to_string_lossy().to_string()),
        None => None,
    }
}

} // verus!
