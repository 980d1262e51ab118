//! Error taxonomy shared by every repository operation.
use vstd::prelude::*;

verus! {

/// Outcome taxonomy for repository operations.
///
/// - `NotFound`: the operation targets an id that does not exist.
/// - `Conflict`: an insert collides with an existing id.
/// - `InvalidRemoval`: a removal-list entry outside the entity's closed
///   field enumeration. Unreachable when removal lists are built from the
///   typed enumerations of this crate; defined for defensive validation at
///   the boundary where removal requests arrive from untyped input.
/// - `Backend`: an opaque failure surfaced by a storage adapter. The
///   in-memory repositories of this crate never produce it: their
///   repository contracts rule it out through `backend_fallible`.
#[derive(Clone, Copy, Debug, PartialEq, Eq, Structural)]
pub enum RepoError {
    NotFound,
    Conflict,
    InvalidRemoval,
    Backend,
}

impl RepoError {
    /// A short stable description of the error, for callers that log it.
    pub fn describe(&self) -> (r: &'static str)
        ensures
            self is NotFound ==> r@ == "not found"@,
            self is Conflict ==> r@ == "conflict"@,
            self is InvalidRemoval ==> r@ == "invalid removal"@,
            self is Backend ==> r@ == "backend failure"@,
    {
        match self {
            RepoError::NotFound => "not found",
            RepoError::Conflict => "conflict",
            RepoError::InvalidRemoval => "invalid removal",
            RepoError::Backend => "backend failure",
        }
    }
}

} // verus!
