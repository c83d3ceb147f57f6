use vstd::prelude::*;
use crate::errors::CleanerError;

verus! {

/// The name of the store's marker entry: a repository root is the first
/// ancestor directory whose immediate children include an entry so named.
pub open spec fn marker_name() -> Seq<char> {
    ".git"@
}

/// Whether a directory listing contains the marker entry. The test is by
/// name alone: a regular file named like the marker also counts, matching
/// common tooling behaviour.
pub open spec fn listing_has_marker(entries: Seq<String>) -> bool {
    exists|i: int| 0 <= i < entries.len() && entries[i]@ == marker_name()
}

/// Whether one directory's immediate children include the marker entry.
pub fn dir_has_marker(entries: &Vec<String>) -> (r: bool)
    ensures
        r == listing_has_marker(entries@),
{
    let marker: String = ".git".to_owned();
    let mut i: usize = 0;
    while i < entries.len()
        invariant
            0 <= i <= entries.len(),
            marker@ == marker_name(),
            forall|j: int| 0 <= j < i ==> entries@[j]@ != marker_name(),
        decreases entries.len() - i,
    {
        if entries[i] == marker {
            return true;
        }
        i = i + 1;
    }
    false
}

/// Finds the repository root among a chain of directory listings.
///
/// `listings[0]` is the starting directory's listing, `listings[1]` its
/// parent's, and so on toward the filesystem root. The result is the index
/// of the innermost directory whose listing contains the marker entry; if no
/// listing contains it, the search fails with `NotFound` and nothing else.
pub fn get_project_root(listings: &Vec<Vec<String>>) -> (r: Result<usize, CleanerError>)
    ensures
        (r matches Ok(i) ==> 0 <= i < listings@.len() && listing_has_marker(listings@[i as int]@)
            && forall|j: int| 0 <= j < i ==> !listing_has_marker(listings@[j]@)),
        (r matches Err(e) ==> e is NotFound && forall|j: int|
            0 <= j < listings@.len() ==> !listing_has_marker(listings@[j]@)),
{
    let mut i: usize = 0;
    while i < listings.len()
        invariant
            0 <= i <= listings.len(),
            forall|j: int| 0 <= j < i ==> !listing_has_marker(listings@[j]@),
        decreases listings.len() - i,
    {
        if dir_has_marker(&listings[i]) {
            return Ok(i);
        }
        i = i + 1;
    }
    Err(CleanerError::NotFound)
}

} // verus!
