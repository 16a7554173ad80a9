//! Paths as strings, taken apart and put together by `std::path` under the
//! conventions of the platform that the library is built for. Nothing here is
//! proved: each function gives the result of one `std::path::Path` method a
//! name, and the rest of the library is verified against the names.

use vstd::prelude::*;

verus! {

/// `Path::join`: `path` adjoined to `base`.
pub uninterp spec fn path_join(base: Seq<char>, path: Seq<char>) -> Seq<char>;

/// `Path::strip_prefix`: what is left of `path` below `base`, or `None` where
/// `base` is no prefix of `path`, component by component.
pub uninterp spec fn path_strip_prefix(path: Seq<char>, base: Seq<char>) -> Option<Seq<char>>;

/// `Path::file_name`: the last component of `path`, or `None` where the path
/// ends in `..` or has no component.
pub uninterp spec fn path_file_name(path: Seq<char>) -> Option<Seq<char>>;

/// `Path::parent`: `path` without its last component, or `None` where the
/// path ends in a root or is empty.
pub uninterp spec fn path_parent(path: Seq<char>) -> Option<Seq<char>>;

/// `Path::join` on strings. Two strings join to a string.
#[verifier::external_body]
pub(crate) fn join(base: &str, path: &str) -> (joined: String)
    ensures
        joined@ == path_join(base@, path@),
{
    std::path::Path::new(base).join(path).to_string_lossy().into_owned()
}

/// `Path::strip_prefix` on strings. What is left of a string is a string.
#[verifier::external_body]
pub(crate) fn strip_prefix(path: &str, base: &str) -> (below: Option<String>)
    ensures
        match below {
            Some(rest) => path_strip_prefix(path@, base@) == Some(rest@),
            None => path_strip_prefix(path@, base@) is None,
        },
{
    match std::path::Path::new(path).strip_prefix(base) {
        Ok(rest) => rest.to_str().map(String::from),
        Err(_) => None,
    }
}

/// `Path::file_name` on a string. A component of a string is a string.
#[verifier::external_body]
pub(crate) fn file_name(path: &str) -> (name: Option<String>)
    ensures
        match name {
            Some(last) => path_file_name(path@) == Some(last@),
            None => path_file_name(path@) is None,
        },
{
    match std::path::Path::new(path).file_name() {
        Some(last) => last.to_str().map(String::from),
        None => None,
    }
}

/// `Path::parent` on a string.
#[verifier::external_body]
pub(crate) fn parent(path: &str) -> (dir: Option<String>)
    ensures
        match dir {
            Some(up) => path_parent(path@) == Some(up@),
            None => path_parent(path@) is None,
        },
{
    match std::path::Path::new(path).parent() {
        Some(up) => up.to_str().map(String::from),
        None => None,
    }
}

} // verus!
