//! Error kinds returned by the lifecycle operations, and the codec-level
//! rejection reasons.

use vstd::prelude::*;

verus! {

/// The kind of failure an operation reports. Credential failures are kept
/// deliberately uniform (`Unauthorized`) so a caller cannot tell a missing
/// account from a wrong password.
#[derive(Clone, Copy, Debug, PartialEq, Eq, Structural)]
pub enum AuthError {
    /// Malformed request: rejected before any store access.
    Validation,
    /// The email is already taken by another account.
    AlreadyExists,
    /// Bad credentials, inactive or missing user, or an invalid token.
    Unauthorized,
    /// Invalid or expired password-reset token.
    BadRequest,
    /// A store is unreachable or holds corrupted data.
    Store,
    /// An internal invariant was violated.
    Internal,
}

/// The caller-facing message that belongs to each error kind.
pub open spec fn error_message(e: AuthError) -> Seq<char> {
    match e {
        AuthError::Validation => "Invalid request"@,
        AuthError::AlreadyExists => "Email already exists"@,
        AuthError::Unauthorized => "Invalid credentials"@,
        AuthError::BadRequest => "Invalid or expired reset token."@,
        AuthError::Store => "Store failure"@,
        AuthError::Internal => "Internal error"@,
    }
}

impl AuthError {
    /// The human-readable message for this error kind. Two errors of the
    /// same kind always carry the same message.
    pub fn message(&self) -> (r: String)
        ensures
            r@ == error_message(*self),
    {
        match self {
            AuthError::Validation => "Invalid request".to_owned(),
            AuthError::AlreadyExists => "Email already exists".to_owned(),
            AuthError::Unauthorized => "Invalid credentials".to_owned(),
            AuthError::BadRequest => "Invalid or expired reset token.".to_owned(),
            AuthError::Store => "Store failure".to_owned(),
            AuthError::Internal => "Internal error".to_owned(),
        }
    }
}

/// Why a signed token was rejected. Callers can tell a tampered token from
/// an expired one, even though the lifecycle manager maps all three to
/// `AuthError::Unauthorized`.
#[derive(Clone, Copy, Debug, PartialEq, Eq, Structural)]
pub enum TokenError {
    /// The byte string does not have the shape of a token.
    Malformed,
    /// The signature does not match the payload.
    BadSignature,
    /// The token's expiry has passed.
    Expired,
}

} // verus!
