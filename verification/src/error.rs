//! The failure taxonomy of the persistence core.
//!
//! Every operation surfaces its failure as a typed result; nothing is
//! retried and no error is papered over with a default value. Read
//! lookups and zero-row writes both report [`RepoError::NotFound`]; the
//! two stay distinguishable because a successful delete or update carries
//! the affected row in its payload.

use vstd::prelude::*;

verus! {

/// What a repository operation can fail with.
#[derive(Clone, Copy, Debug, PartialEq, Eq, Structural)]
pub enum RepoError {
    /// A builder was finished with a required field still unset; caught
    /// before any store work.
    ValidationIncomplete,
    /// A lookup by id or composite key matched no row, or a delete or
    /// update touched zero rows.
    NotFound,
    /// A write referenced a foreign row (owner, report, borrower) that does
    /// not exist, or would leave one dangling.
    ConstraintViolation,
    /// A write would duplicate a unique identity field (username, email).
    UniqueViolation,
    /// The connection pool was exhausted or the store unreachable. Raised
    /// only by the boundary that checks out connections, never by the store
    /// itself.
    Unavailable,
    /// Any other backing-store failure. Raised only by the boundary, never
    /// by the store itself.
    StoreError,
}

/// Turns a builder's outcome into a result: a complete value passes
/// through, an incomplete one becomes [`RepoError::ValidationIncomplete`].
pub fn require_complete<T>(built: Option<T>) -> (r: Result<T, RepoError>)
    ensures
        match r {
            Ok(v) => built == Some(v),
            Err(e) => built is None && e == RepoError::ValidationIncomplete,
        },
{
    match built {
        Some(v) => Ok(v),
        None => Err(RepoError::ValidationIncomplete),
    }
}

} // verus!
