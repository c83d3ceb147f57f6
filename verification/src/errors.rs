use vstd::prelude::*;

verus! {

#[verifier::external_type_specification]
#[verifier::external_body]
pub struct ExIoError(std::io::Error);

/// The failures this library reports to its callers.
///
/// Per-object read failures are never reported through this type: they are
/// counted in the aggregate statistics and the offending object is skipped.
#[derive(Debug)]
pub enum CleanerError {
    /// A directory could not be listed while looking for the root.
    IOError(std::io::Error),
    /// The object store itself reported a fatal error.
    GitError(git2::Error),
    /// No ancestor directory contains the repository marker.
    NotFound,
    /// A failure with no further information.
    UnknownError,
}

impl From<git2::Error> for CleanerError {
    fn from(e: git2::Error) -> (r: CleanerError) {
        CleanerError::GitError(e)
    }
}

impl vstd::std_specs::convert::FromSpecImpl<git2::Error> for CleanerError {
    open spec fn obeys_from_spec() -> bool {
        true
    }

    open spec fn from_spec(e: git2::Error) -> CleanerError {
        CleanerError::GitError(e)
    }
}

impl From<std::io::Error> for CleanerError {
    fn from(e: std::io::Error) -> (r: CleanerError) {
        CleanerError::IOError(e)
    }
}

impl vstd::std_specs::convert::FromSpecImpl<std::io::Error> for CleanerError {
    open spec fn obeys_from_spec() -> bool {
        true
    }

    open spec fn from_spec(e: std::io::Error) -> CleanerError {
        CleanerError::IOError(e)
    }
}

} // verus!
