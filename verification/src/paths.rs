//! File-system paths, held as strings. What a path means (how two are
//! joined, compared and ordered) is `std::path`'s business: each operation
//! below makes one call into it, and names its result.

use vstd::prelude::*;

verus! {

/// What `Path::join` gives for `base` joined with `rel`, as text.
pub uninterp spec fn joined_path(base: Seq<char>, rel: Seq<char>) -> Seq<char>;

/// What `Path::strip_prefix` gives for `path` and `base`, as text; `None`
/// where `base` is not a leading part of `path`.
pub uninterp spec fn stripped_path(path: Seq<char>, base: Seq<char>) -> Option<Seq<char>>;

/// What `Path::starts_with` answers for `path` and `base`.
pub uninterp spec fn path_within(path: Seq<char>, base: Seq<char>) -> bool;

/// What `==` on `Path` answers for `a` and `b`.
pub uninterp spec fn same_path(a: Seq<char>, b: Seq<char>) -> bool;

/// The order in which sorting `PathBuf`s with `slice::sort` leaves `paths`.
pub uninterp spec fn sorted_paths(paths: Seq<Seq<char>>) -> Seq<Seq<char>>;

/// `base` joined with `rel` by `std::path::Path::join`. Claimed: the result
/// is `joined_path(base, rel)`, a function of the two texts alone. Both
/// arguments are valid UTF-8, so the joined path converts back to text
/// without loss.
#[verifier::external_body]
pub(crate) fn path_join(base: &str, rel: &str) -> (joined: String)
    ensures
        joined@ == joined_path(base@, rel@),
{
    std::path::Path::new(base).join(rel).to_string_lossy().into_owned()
}

/// `path` relative to `base`, by `std::path::Path::strip_prefix`. Claimed:
/// the result is `stripped_path(path, base)`, a function of the two texts.
#[verifier::external_body]
pub(crate) fn path_strip_prefix(path: &str, base: &str) -> (rel: Option<String>)
    ensures
        match rel {
            Some(r) => stripped_path(path@, base@) == Some(r@),
            None => stripped_path(path@, base@) is None,
        },
{
    match std::path::Path::new(path).strip_prefix(base) {
        Ok(r) => Some(r.to_string_lossy().into_owned()),
        Err(_) => None,
    }
}

/// Whether `path` lies under `base`, by `std::path::Path::starts_with`.
/// Claimed: the answer is `path_within(path, base)`, a function of the texts.
#[verifier::external_body]
pub(crate) fn path_starts_with(path: &str, base: &str) -> (within: bool)
    ensures
        within == path_within(path@, base@),
{
    std::path::Path::new(path).starts_with(base)
}

/// Whether `a` and `b` name the same path, by `==` on `std::path::Path`.
/// Claimed: the answer is `same_path(a, b)`, a function of the texts, and
/// `==` on `Path` is an equivalence (`Path` is `Eq`): equal texts name the
/// same path, the answer is the same with `a` and `b` swapped, and when they
/// name the same path, any third path is the same as one exactly when it is
/// the same as the other.
#[verifier::external_body]
pub(crate) fn paths_equal(a: &str, b: &str) -> (same: bool)
    ensures
        same == same_path(a@, b@),
        a@ == b@ ==> same,
        same == same_path(b@, a@),
        same ==> forall|c: Seq<char>| same_path(a@, c) == same_path(b@, c) && same_path(c, a@) == same_path(c, b@),
{
    std::path::Path::new(a) == std::path::Path::new(b)
}

/// `paths` sorted as `PathBuf`s by `slice::sort`. Claimed: the result is
/// `sorted_paths` of the input, a function of the input sequence (the sort
/// is stable), and it holds the same paths, each as often (the sort
/// permutes). That the result is in `Path` order is not stated: the order
/// is `std::path`'s.
#[verifier::external_body]
pub(crate) fn sort_paths(paths: Vec<String>) -> (sorted: Vec<String>)
    ensures
        crate::models::strings_view(sorted@) == sorted_paths(crate::models::strings_view(paths@)),
        crate::models::strings_view(sorted@).to_multiset() == crate::models::strings_view(
            paths@,
        ).to_multiset(),
{
    let mut buf: Vec<std::path::PathBuf> = paths.into_iter().map(std::path::PathBuf::from).collect();
    buf.sort();
    buf.into_iter().map(|p| p.to_string_lossy().into_owned()).collect()
}

} // verus!
