//! Paths held as strings, and what `std::path` computes of them.
use vstd::prelude::*;

verus! {

/// The last component of a path as `Path::file_name` gives it (when it is
/// valid UTF-8); `None` for a path ending in `..` or the root.
pub uninterp spec fn file_name_of(p: Seq<char>) -> Option<Seq<char>>;

/// The extension of a path as `Path::extension` gives it (when it is valid
/// UTF-8).
pub uninterp spec fn extension_of(p: Seq<char>) -> Option<Seq<char>>;

/// The parent of a path as `Path::parent` gives it.
pub uninterp spec fn parent_of(p: Seq<char>) -> Option<Seq<char>>;

/// Whether two paths are equal component by component, as `Path`'s `==`
/// decides it.
pub uninterp spec fn paths_equal(a: Seq<char>, b: Seq<char>) -> bool;

/// `Path::starts_with`: whether `base` is made of the leading components of
/// `p`.
pub uninterp spec fn path_starts_with(p: Seq<char>, base: Seq<char>) -> bool;

/// `Path::join`, shown lossily as a string: `name` after `base` and a
/// separator, or `name` alone when it is absolute.
pub uninterp spec fn joined_path(base: Seq<char>, name: Seq<char>) -> Seq<char>;

/// `Path::join`, shown lossily as a string.
#[verifier::external_body]
pub(crate) fn join_path(base: &str, name: &str) -> (r: String)
    ensures
        r@ == joined_path(base@, name@),
{
    std::path::Path::new(base).join(name).to_string_lossy().into_owned()
}

/// `Path::file_name` followed by `OsStr::to_str`.
#[verifier::external_body]
pub(crate) fn file_name(p: &str) -> (r: Option<String>)
    ensures
        match file_name_of(p@) {
            Some(n) => r is Some && r->0@ == n,
            None => r is None,
        },
{
    std::path::Path::new(p).file_name().and_then(|n| n.to_str()).map(|n| n.to_string())
}

/// `Path::extension` followed by `OsStr::to_str`.
#[verifier::external_body]
pub(crate) fn extension(p: &str) -> (r: Option<String>)
    ensures
        match extension_of(p@) {
            Some(n) => r is Some && r->0@ == n,
            None => r is None,
        },
{
    std::path::Path::new(p).extension().and_then(|n| n.to_str()).map(|n| n.to_string())
}

/// `Path::parent`, shown lossily as a string.
#[verifier::external_body]
pub(crate) fn parent(p: &str) -> (r: Option<String>)
    ensures
        match parent_of(p@) {
            Some(n) => r is Some && r->0@ == n,
            None => r is None,
        },
{
    std::path::Path::new(p).parent().map(|n| n.to_string_lossy().into_owned())
}

/// `Path`'s `==`.
#[verifier::external_body]
pub(crate) fn path_eq(a: &str, b: &str) -> (r: bool)
    ensures
        r == paths_equal(a@, b@),
{
    std::path::Path::new(a) == std::path::Path::new(b)
}

/// `Path::starts_with`.
#[verifier::external_body]
pub(crate) fn starts_with_path(p: &str, base: &str) -> (r: bool)
    ensures
        r == path_starts_with(p@, base@),
{
    std::path::Path::new(p).starts_with(base)
}

} // verus!
