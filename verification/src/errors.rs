//! Error taxonomy of the revision and diff core. Every failure is terminal
//! for its operation and is surfaced to the caller as a typed value; this
//! library never exits the process and never retries.

use vstd::prelude::*;

verus! {

/// Why a revision query failed to resolve.
#[derive(Clone, Copy, PartialEq, Eq, Structural, Debug)]
pub enum ResolutionError {
    /// The query was empty or held a character outside the allowed set;
    /// refused before any traversal.
    InvalidSyntax,
    /// The query matched no reachable commit.
    NotFound,
    /// The query matched two or more commits; never auto-resolved.
    Ambiguous,
}

/// Why a diff operation failed.
#[derive(Clone, Copy, PartialEq, Eq, Structural, Debug)]
pub enum DiffError {
    /// The revision query was malformed.
    InvalidSyntax,
    /// The revision query matched no reachable commit.
    NotFound,
    /// The revision query matched more than one commit.
    Ambiguous,
    /// No working-copy commit exists to stand for `@`.
    NoWorkingCopy,
    /// A commit or tree reference did not resolve to an object.
    ObjectNotFound,
    /// A content id had no stored bytes behind it.
    ContentUnavailable,
}

/// The diff-level error for a resolution failure.
pub open spec fn diff_error_of_resolution(e: ResolutionError) -> DiffError {
    match e {
        ResolutionError::InvalidSyntax => DiffError::InvalidSyntax,
        ResolutionError::NotFound => DiffError::NotFound,
        ResolutionError::Ambiguous => DiffError::Ambiguous,
    }
}

/// Maps a resolution failure to its diff-level error.
pub fn resolution_to_diff_error(e: ResolutionError) -> (r: DiffError)
    ensures
        r == diff_error_of_resolution(e),
{
    match e {
        ResolutionError::InvalidSyntax => DiffError::InvalidSyntax,
        ResolutionError::NotFound => DiffError::NotFound,
        ResolutionError::Ambiguous => DiffError::Ambiguous,
    }
}

} // verus!
