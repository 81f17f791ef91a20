//! Comparisons of file-system paths, made by the standard library's `Path`,
//! which compares paths component by component.

use vstd::prelude::*;

verus! {

/// What `Path::starts_with` answers for the paths `path` and `base`.
pub uninterp spec fn path_starts_with(path: Seq<char>, base: Seq<char>) -> bool;

/// What `Path`'s `==` answers for the paths `a` and `b`.
pub uninterp spec fn paths_equal(a: Seq<char>, b: Seq<char>) -> bool;

/// Calls `std::path::Path::starts_with`: whether `base` is a prefix of
/// `path`, counted in whole components. The contract names the answer and
/// claims only that it depends on the two paths alone.
#[verifier::external_body]
pub(crate) fn starts_with(path: &str, base: &str) -> (r: bool)
    ensures
        r == path_starts_with(path@, base@),
{
    std::path::Path::new(path).starts_with(base)
}

/// Calls `==` on two `std::path::Path`s, which compares their components.
/// The contract names the answer, and claims besides what `Path`'s `Eq`
/// gives: a path is equal to itself, and the answer does not depend on the
/// order of the two paths.
#[verifier::external_body]
pub(crate) fn same_path(a: &str, b: &str) -> (r: bool)
    ensures
        r == paths_equal(a@, b@),
        r == paths_equal(b@, a@),
        a@ == b@ ==> r,
{
    std::path::Path::new(a) == std::path::Path::new(b)
}

} // verus!
