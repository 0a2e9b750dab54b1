//! The errors a request can end in, and their HTTP status codes.

use vstd::prelude::*;

verus! {

/// Why a request could not be served.  Every error is local to the one
/// request that raised it; the server keeps no state between requests.
#[derive(Clone, Copy, Debug, PartialEq, Eq, Structural)]
pub enum ServeError {
    /// The resolved target does not exist on the filesystem.
    NotFound,
    /// The filesystem refused access to the resolved target.
    PermissionDenied,
    /// The request path would resolve outside the root directory.
    TraversalAttempt,
}

/// The HTTP status code each error maps to: absent targets are reported as
/// 404, refused access and attempts to leave the root as 403.
pub open spec fn spec_status_code(e: ServeError) -> u16 {
    match e {
        ServeError::NotFound => 404,
        ServeError::PermissionDenied => 403,
        ServeError::TraversalAttempt => 403,
    }
}

/// Returns the HTTP status code for an error.
pub fn status_code(e: &ServeError) -> (c: u16)
    ensures
        c == spec_status_code(*e),
{
    match e {
        ServeError::NotFound => 404,
        ServeError::PermissionDenied => 403,
        ServeError::TraversalAttempt => 403,
    }
}

} // verus!
