//! Artifact selection: which of a game's uploads to download.
//!
//! Policy: the first upload whose filename ends in the archive extension
//! (case-insensitively) is preferred; with none, the first upload as the
//! listing returned it; with no uploads at all, selection fails and the
//! entry is skipped.

use crate::casefold::ci_has_suffix;
use crate::casefold::ends_with_ci;
use crate::catalog::Upload;
use vstd::prelude::*;

verus! {

/// The filename names a zip archive: its folded form ends in ".zip".
pub open spec fn is_archive_name(name: Seq<char>) -> bool {
    ci_has_suffix(name, ".zip"@)
}

/// Does this filename name a zip archive?
pub fn archive_name(name: &str) -> (r: bool)
    ensures
        r == is_archive_name(name@),
{
    ends_with_ci(name, ".zip")
}

/// Picks the upload to download: the index of the first archive-named
/// upload, else index 0, else nothing when the listing is empty.
pub fn select_upload(uploads: &Vec<Upload>) -> (r: Option<usize>)
    ensures
        r is None <==> uploads@.len() == 0,
        r matches Some(i) ==> i < uploads@.len(),
        (exists|j: int|
            0 <= j < uploads@.len() && is_archive_name(#[trigger] uploads@[j].filename@)) ==> (
        r matches Some(i) && is_archive_name(uploads@[i as int].filename@) && (forall|j: int|
            0 <= j < i ==> !is_archive_name(#[trigger] uploads@[j].filename@))),
        (uploads@.len() > 0 && (forall|j: int|
            0 <= j < uploads@.len() ==> !is_archive_name(#[trigger] uploads@[j].filename@)))
            ==> r == Some(0usize),
{
    let n = uploads.len();
    let mut i: usize = 0;
    while i < n
        invariant
            n == uploads@.len(),
            i <= n,
            forall|j: int| 0 <= j < i ==> !is_archive_name(#[trigger] uploads@[j].filename@),
        decreases n - i,
    {
        if archive_name(uploads[i].filename.as_str()) {
            return Some(i);
        }
        i = i + 1;
    }
    if n > 0 {
        Some(0)
    } else {
        None
    }
}

} // verus!
