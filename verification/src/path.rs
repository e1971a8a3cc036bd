//! File-system paths, taken apart as `std::path::Path` does.

use vstd::prelude::*;

verus! {

/// What `Path::file_stem` returns for the path spelled `p`, as text.
pub uninterp spec fn path_file_stem(p: Seq<char>) -> Option<Seq<char>>;

/// What `Path::parent` returns for the path spelled `p`, as text.
pub uninterp spec fn path_parent(p: Seq<char>) -> Option<Seq<char>>;

/// The file name of `p` without its extension (`Path::file_stem`).
/// Claimed: the result is the one named by `path_file_stem`.
#[verifier::external_body]
pub(crate) fn file_stem(p: &str) -> (res: Option<String>)
    ensures
        match res {
            Some(s) => path_file_stem(p@) == Some(s@),
            None => path_file_stem(p@) is None,
        },
{
    std::path::Path::new(p).file_stem().map(|s| s.to_string_lossy().into_owned())
}

/// The path of the directory that holds `p` (`Path::parent`).
/// Claimed: the result is the one named by `path_parent`.
#[verifier::external_body]
pub(crate) fn parent(p: &str) -> (res: Option<String>)
    ensures
        match res {
            Some(s) => path_parent(p@) == Some(s@),
            None => path_parent(p@) is None,
        },
{
    std::path::Path::new(p).parent().map(|s| s.to_string_lossy().into_owned())
}

} // verus!
