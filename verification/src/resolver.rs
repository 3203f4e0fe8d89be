//! Where the library directory is: as given, or below an ancestor of the
//! working directory.
//!
//! A host started in a subdirectory of a project still finds `target/debug`:
//! a relative path that does not exist as given is tried below the working
//! directory, then below its parent, and so on upward.

use crate::error::HotReloaderError;
use vstd::prelude::*;

verus! {

/// Where the path was found.
#[derive(Clone, Copy, Debug, PartialEq, Eq, Structural)]
pub enum Resolved {
    /// The path exists as it was given.
    AsGiven,
    /// The path exists below the ancestor with this index, where 0 is the
    /// working directory itself, 1 its parent, and so on.
    UnderAncestor(usize),
}

/// Whether `hits` holds at `at` its first `true`.
pub open spec fn is_first_hit(hits: Seq<bool>, at: int) -> bool {
    &&& 0 <= at < hits.len()
    &&& hits[at]
    &&& forall|j: int| 0 <= j < at ==> !hits[j]
}

/// Whether `hits` holds no `true`.
pub open spec fn no_hit(hits: Seq<bool>) -> bool {
    forall|j: int| 0 <= j < hits.len() ==> !hits[j]
}

/// Whether the ancestors of the working directory are searched at all: only
/// for a relative path that does not exist as given.
pub open spec fn searches_ancestors(exists_as_given: bool, is_relative: bool) -> bool {
    !exists_as_given && is_relative
}

/// Decides where the path is, from what the host found on disk:
/// whether the path exists as given, whether it is relative, and, for each
/// ancestor of the working directory from the nearest upward, whether the
/// path exists below it (`None` where the working directory is unknown).
pub fn find_file_or_dir_in_parent_directories(
    exists_as_given: bool,
    is_relative: bool,
    ancestor_hits: &Option<Vec<bool>>,
) -> (found: Result<Resolved, HotReloaderError>)
    ensures
        match found {
            Ok(Resolved::AsGiven) => exists_as_given,
            Ok(Resolved::UnderAncestor(at)) => {
                &&& searches_ancestors(exists_as_given, is_relative)
                &&& ancestor_hits matches Some(hits)
                &&& is_first_hit(hits@, at as int)
            },
            Err(e) => {
                &&& e == HotReloaderError::NotFound
                &&& !exists_as_given
                &&& searches_ancestors(exists_as_given, is_relative) ==> (ancestor_hits
                    matches Some(hits) ==> no_hit(hits@))
            },
        },
{
    if exists_as_given {
        return Ok(Resolved::AsGiven);
    }
    if !is_relative {
        return Err(HotReloaderError::NotFound);
    }
    match ancestor_hits {
        None => Err(HotReloaderError::NotFound),
        Some(hits) => {
            let mut i: usize = 0;
            while i < hits.len()
                invariant
                    i <= hits.len(),
                    !exists_as_given,
                    is_relative,
                    *ancestor_hits == Some(*hits),
                    forall|j: int| 0 <= j < i ==> !hits@[j],
                decreases hits.len() - i,
            {
                if hits[i] {
                    return Ok(Resolved::UnderAncestor(i));
                }
                i = i + 1;
            }
            Err(HotReloaderError::NotFound)
        },
    }
}

} // verus!
