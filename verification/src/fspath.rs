//! Path arithmetic on UTF-8 path strings, done by `std::path`.
//!
//! Each operation is a pure function of the path text; the names below stand for what
//! `std::path` computes.
use vstd::prelude::*;
use std::path::Path;

verus! {

/// The parent directory of a path, as `Path::parent` gives it (`None` for a root or an empty
/// path; an empty path for a bare file name).
pub uninterp spec fn parent_of(path: Seq<char>) -> Option<Seq<char>>;

/// The final component of a path, as `Path::file_name` gives it (`None` when the path ends in
/// `..` or is a root).
pub uninterp spec fn file_name_of(path: Seq<char>) -> Option<Seq<char>>;

/// The extension of a path's final component, as `Path::extension` gives it.
pub uninterp spec fn extension_of(path: Seq<char>) -> Option<Seq<char>>;

/// `base` joined with `rest`, as `Path::join` gives it.
pub uninterp spec fn joined(base: Seq<char>, rest: Seq<char>) -> Seq<char>;

/// The path with its extension replaced by `ext`, as `Path::with_extension` gives it.
pub uninterp spec fn with_extension_of(path: Seq<char>, ext: Seq<char>) -> Seq<char>;

/// Calls `Path::parent`; the parent of a UTF-8 path is a prefix of it and so UTF-8 too.
#[verifier::external_body]
pub(crate) fn parent(path: &str) -> (r: Option<String>)
    ensures
        crate::security::css::opt_view(r) == parent_of(path@),
{
    Path::new(path).parent().map(|p| p.to_string_lossy().into_owned())
}

/// Calls `Path::file_name`; the final component of a UTF-8 path is UTF-8 too.
#[verifier::external_body]
pub(crate) fn file_name(path: &str) -> (r: Option<String>)
    ensures
        crate::security::css::opt_view(r) == file_name_of(path@),
{
    Path::new(path).file_name().map(|p| p.to_string_lossy().into_owned())
}

/// Calls `Path::extension`; the extension of a UTF-8 path is UTF-8 too.
#[verifier::external_body]
pub(crate) fn extension(path: &str) -> (r: Option<String>)
    ensures
        crate::security::css::opt_view(r) == extension_of(path@),
{
    Path::new(path).extension().map(|p| p.to_string_lossy().into_owned())
}

/// Calls `Path::join` on two UTF-8 paths, whose result is UTF-8 too.
#[verifier::external_body]
pub(crate) fn join_path(base: &str, rest: &str) -> (r: String)
    ensures
        r@ == joined(base@, rest@),
{
    Path::new(base).join(rest).to_string_lossy().into_owned()
}

/// The text holds no path separator (`/`, nor `\\`, which is one on Windows).
pub open spec fn no_separator(s: Seq<char>) -> bool {
    forall|i: int| 0 <= i < s.len() ==> s[i] != '/' && s[i] != '\\'
}

/// Calls `Path::with_extension` on a UTF-8 path and extension, whose result is UTF-8 too. Its
/// documentation says that it panics when the extension holds a path separator, which the
/// `requires` leaves out.
#[verifier::external_body]
pub(crate) fn with_extension(path: &str, ext: &str) -> (r: String)
    requires
        no_separator(ext@),
    ensures
        r@ == with_extension_of(path@, ext@),
{
    Path::new(path).with_extension(ext).to_string_lossy().into_owned()
}

} // verus!
