//! Paths, held as text, and the operations of `std::path::Path` that the
//! finder uses on them.
//!
//! Paths are kept as `String`s. A path whose text is not valid UTF-8 is
//! carried in its lossy form (see `String::from_utf8_lossy`). std reads a
//! path's text by the path syntax of the target the crate is compiled for,
//! which is fixed for a build.
use std::path::Path;
use vstd::prelude::*;

verus! {

/// Whether `Path::new(a) == Path::new(b)`: std compares paths component by
/// component, so `a//b` and `a/b/` equal `a/b`.
pub uninterp spec fn path_equal(a: Seq<char>, b: Seq<char>) -> bool;

/// Whether `Path::new(p).starts_with(base)`: `base` is a prefix of `p` by
/// whole components.
pub uninterp spec fn path_starts_with(p: Seq<char>, base: Seq<char>) -> bool;

/// `Path::new(p).file_name()`: the final component, unless the path ends in
/// `..` or is a root or empty.
pub uninterp spec fn path_file_name(p: Seq<char>) -> Option<Seq<char>>;

/// `Path::new(p).parent()`: the path without its final component, if any.
pub uninterp spec fn path_parent(p: Seq<char>) -> Option<Seq<char>>;

/// Calls `PartialEq::eq` of `std::path::Path`; claimed: the answer is
/// `path_equal(a, b)`, a function of the two texts (it reads no file).
/// `Path` is `Eq`, so the comparison is reflexive and symmetric: equal texts
/// are the same path, and the order of the two does not matter.
#[verifier::external_body]
pub(crate) fn same_path(a: &str, b: &str) -> (r: bool)
    ensures
        r == path_equal(a@, b@),
        a@ == b@ ==> r,
        r == path_equal(b@, a@),
{
    Path::new(a) == Path::new(b)
}

/// Calls `Path::starts_with`; claimed: the answer is `path_starts_with(p, base)`,
/// a function of the two texts (it reads no file).
#[verifier::external_body]
pub(crate) fn path_has_prefix(p: &str, base: &str) -> (r: bool)
    ensures
        r == path_starts_with(p@, base@),
{
    Path::new(p).starts_with(base)
}

/// Calls `Path::file_name`; claimed: the answer is `path_file_name(p)`, a
/// function of the text (it reads no file).
/// The final component of a path given as text is itself text, so its
/// conversion back to `&str` always succeeds.
#[verifier::external_body]
pub(crate) fn file_name_of(p: &str) -> (r: Option<String>)
    ensures
        match r {
            Some(n) => path_file_name(p@) == Some(n@),
            None => path_file_name(p@) is None,
        },
{
    Path::new(p).file_name().and_then(|n| n.to_str()).map(|n| n.to_owned())
}

/// Calls `Path::parent`; claimed: the answer is `path_parent(p)`, a function
/// of the text (it reads no file).
#[verifier::external_body]
pub(crate) fn parent_of(p: &str) -> (r: Option<String>)
    ensures
        match r {
            Some(d) => path_parent(p@) == Some(d@),
            None => path_parent(p@) is None,
        },
{
    Path::new(p).parent().map(|d| d.to_string_lossy().into_owned())
}

/// Calls `Path::canonicalize`, which resolves the path on disk; `None` where
/// std returns an error. Nothing is claimed of the result: it depends on
/// the file system.
#[verifier::external_body]
pub(crate) fn canonical_form(p: &str) -> Option<String> {
    Path::new(p).canonicalize().ok().map(|c| c.to_string_lossy().into_owned())
}

/// Calls `Path::is_file`, which asks the file system whether a regular file
/// is found there (following symbolic links). Nothing is claimed of the
/// result: it depends on the file system.
#[verifier::external_body]
pub(crate) fn is_regular_file(p: &str) -> bool {
    Path::new(p).is_file()
}

} // verus!
