//! What is assumed of path arithmetic: `std::path` and the `path-slash` crate.
//!
//! Paths are held as strings. What the outside functions make of them depends
//! on the platform's path syntax, so their results are named, not spelled out.

use vstd::prelude::*;
use path_slash::PathExt;
use std::path::Path;

verus! {

/// What is left of `path` once the leading components that make up `base` are
/// taken off; `None` where `base` is not a prefix of `path`.
pub uninterp spec fn path_strip_prefix(path: Seq<char>, base: Seq<char>) -> Option<Seq<char>>;

/// `path` with `/` between its components.
pub uninterp spec fn path_to_slash(path: Seq<char>) -> Seq<char>;

/// The file name of `path` without its extension; `None` where the path has
/// no file name.
pub uninterp spec fn path_file_stem(path: Seq<char>) -> Option<Seq<char>>;

/// `Path::strip_prefix` of `std`.
#[verifier::external_body]
pub(crate) fn strip_prefix(path: &str, base: &str) -> (r: Option<String>)
    ensures
        match r {
            Some(rest) => path_strip_prefix(path@, base@) == Some(rest@),
            None => path_strip_prefix(path@, base@) is None,
        },
{
    match Path::new(path).strip_prefix(Path::new(base)) {
        Ok(rest) => Some(rest.to_string_lossy().into_owned()),
        Err(_) => None,
    }
}

/// `PathExt::to_slash_lossy` of `path-slash`.
#[verifier::external_body]
pub(crate) fn to_slash(path: &str) -> (r: String)
    ensures
        r@ == path_to_slash(path@),
{
    Path::new(path).to_slash_lossy()
}

/// `Path::file_stem` of `std`.
#[verifier::external_body]
pub(crate) fn file_stem(path: &str) -> (r: Option<String>)
    ensures
        match r {
            Some(stem) => path_file_stem(path@) == Some(stem@),
            None => path_file_stem(path@) is None,
        },
{
    match Path::new(path).file_stem() {
        Some(stem) => Some(stem.to_string_lossy().into_owned()),
        None => None,
    }
}

} // verus!
