//! Failure taxonomy of the core operations.

use vstd::prelude::*;

verus! {

/// Typed outcome of a failed core operation.  Every operation fails
/// fast with one of these; none partially mutates state silently.
#[derive(Clone, Copy, Debug, PartialEq, Eq, Structural)]
pub enum WinkError {
    /// The named short code does not exist.
    NotFound,
    /// Password mismatch or malformed stored credential, surfaced
    /// uniformly so callers cannot distinguish "no such user" from
    /// "wrong password".
    InvalidCredentials,
    /// Signup with an email that is already taken.
    DuplicateEmail,
    /// Expired or unknown session where a valid one is required.
    SessionInvalid,
    /// The store refused a write, such as an identifier conflict that
    /// survived the bounded retries, or a counter at its limit.
    StoreFailure,
}

impl WinkError {
    /// A short description of the error.
    pub fn describe(&self) -> (r: &'static str)
        ensures
            r@ =~= match self {
                WinkError::NotFound => "not found"@,
                WinkError::InvalidCredentials => "invalid credentials"@,
                WinkError::DuplicateEmail => "duplicate email"@,
                WinkError::SessionInvalid => "session invalid"@,
                WinkError::StoreFailure => "store failure"@,
            },
    {
        match self {
            WinkError::NotFound => "not found",
            WinkError::InvalidCredentials => "invalid credentials",
            WinkError::DuplicateEmail => "duplicate email",
            WinkError::SessionInvalid => "session invalid",
            WinkError::StoreFailure => "store failure",
        }
    }
}

} // verus!
