//! Paths are held as UTF-8 text. What joining and splitting them gives is
//! decided by the `camino` crate; the functions here hand it text and take
//! text back.
//!
//! The library is for POSIX paths. There `camino` reads nothing but the
//! texts it is given, so each result is named as a function of them; what
//! the function is on given texts, no contract says.

use vstd::prelude::*;
use crate::ops::view_of;

verus! {

/// The path that `camino` gives for `tail` adjoined to `base`.
pub uninterp spec fn joined(base: Seq<char>, tail: Seq<char>) -> Seq<char>;

/// The path without its final component, as `camino` gives it, if there is
/// one.
pub uninterp spec fn parent_of(path: Seq<char>) -> Option<Seq<char>>;

/// The final component of the path, as `camino` gives it, if there is one.
pub uninterp spec fn file_name_of(path: Seq<char>) -> Option<Seq<char>>;

/// What is left of the path once the leading components `base` are taken
/// off, as `camino` gives it; nothing where the path does not start with them.
pub uninterp spec fn without_prefix(path: Seq<char>, base: Seq<char>) -> Option<Seq<char>>;

/// Calls `camino::Utf8Path::join`. The contract only names the result: the
/// same two texts always give the same path.
#[verifier::external_body]
pub(crate) fn path_join(base: &str, tail: &str) -> (r: String)
    ensures
        r@ == joined(base@, tail@),
{
    camino::Utf8Path::new(base).join(tail).into_string()
}

/// Calls `camino::Utf8Path::parent`. The contract only names the result,
/// which is absent where the path ends in a root or is empty.
#[verifier::external_body]
pub(crate) fn path_parent(path: &str) -> (r: Option<String>)
    ensures
        view_of(r) == parent_of(path@),
{
    camino::Utf8Path::new(path).parent().map(ToString::to_string)
}

/// Calls `camino::Utf8Path::file_name`. The contract only names the result,
/// which is absent where the path ends in `..` or has no component.
#[verifier::external_body]
pub(crate) fn path_file_name(path: &str) -> (r: Option<String>)
    ensures
        view_of(r) == file_name_of(path@),
{
    camino::Utf8Path::new(path).file_name().map(String::from)
}

/// Calls `camino::Utf8Path::strip_prefix`. The contract only names the
/// result; the error that `camino` returns where `base` is no prefix carries
/// nothing and becomes `None`.
#[verifier::external_body]
pub(crate) fn path_strip_prefix(path: &str, base: &str) -> (r: Option<String>)
    ensures
        view_of(r) == without_prefix(path@, base@),
{
    camino::Utf8Path::new(path).strip_prefix(base).ok().map(ToString::to_string)
}

} // verus!
