use vstd::prelude::*;

verus! {

/// The failures that the authentication core reports to its callers.
#[derive(Clone, Copy, Debug, PartialEq, Eq, Structural)]
pub enum AuthError {
    /// Bad login or password; never says which.
    InvalidAuthentication,
    /// Token absent, revoked, owned by someone else, or in the wrong
    /// restricted state for the operation.
    SessionInvalid,
    /// Neither a one-time code nor an unused recovery code matched.
    MfaInvalid,
    /// The resource operated on (an MFA enrollment) does not exist.
    NotFound,
    /// Any unexpected internal failure.
    ServerError,
}

/// Whether a call succeeded, forgetting the value it returned.
pub open spec fn outcome<T>(r: Result<T, AuthError>) -> Result<(), AuthError> {
    match r {
        Ok(_) => Ok(()),
        Err(e) => Err(e),
    }
}

} // verus!
