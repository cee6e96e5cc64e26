//! File path queries, answered by `std::path::Path`.
use std::path::Path;
use vstd::prelude::*;

verus! {

/// The final component of path `p`, as `Path::file_name` gives it, by
/// the path rules of the build target (on Unix, `/` separates components).
pub uninterp spec fn file_name_of(p: Seq<char>) -> Option<Seq<char>>;

/// The extension of path `p`, as `Path::extension` gives it, by the path
/// rules of the build target.
pub uninterp spec fn extension_of(p: Seq<char>) -> Option<Seq<char>>;

/// `Path::file_name`: the final component of `p`; `None` when the path
/// ends in `..` or is a root or empty. The result is read back as UTF-8,
/// which cannot fail for a component of a `&str`.
#[verifier::external_body]
pub fn path_file_name(p: &str) -> (r: Option<String>)
    ensures
        match r {
            Some(s) => file_name_of(p@) == Some(s@),
            None => file_name_of(p@) is None,
        },
{
    Path::new(p).file_name().and_then(|n| n.to_str()).map(|n| n.to_string())
}

/// `Path::extension`: the part of the file name after its last dot, if the
/// name has a dot that is not its first char.
#[verifier::external_body]
pub fn path_extension(p: &str) -> (r: Option<String>)
    ensures
        match r {
            Some(s) => extension_of(p@) == Some(s@),
            None => extension_of(p@) is None,
        },
{
    Path::new(p).extension().and_then(|n| n.to_str()).map(|n| n.to_string())
}

/// Whether paths `a` and `b` have the same components, as `Path`'s `==`
/// compares them by the path rules of the build target (on Unix, `/a//b`,
/// `/a/./b` and `/a/b/` all equal `/a/b`).
pub uninterp spec fn components_equal(a: Seq<char>, b: Seq<char>) -> bool;

/// Paths `a` and `b` name the same path: they are written alike, or they
/// have the same components.
pub open spec fn same_path(a: Seq<char>, b: Seq<char>) -> bool {
    a == b || components_equal(a, b)
}

/// `Path`'s `==`: whether the two paths have the same components. Equal
/// text always gives equal paths, as `Path`'s equality is reflexive.
#[verifier::external_body]
pub fn path_eq(a: &str, b: &str) -> (r: bool)
    ensures
        r == (a@ == b@ || components_equal(a@, b@)),
{
    Path::new(a) == Path::new(b)
}

} // verus!
