//! The error taxonomy of the authentication core.

use vstd::prelude::*;

verus! {

/// Every failure a caller of the core can observe.
///
/// `InvalidCredentials` is deliberately shared between "no such account" and
/// "wrong password" so that a login failure does not reveal which part of the
/// credential was wrong.
#[derive(Clone, Copy, Debug, PartialEq, Eq, Structural)]
pub enum AuthError {
    /// Login or re-authentication failed; indistinguishable between an
    /// unknown email and a wrong password.
    InvalidCredentials,
    /// The normalised form of the email is already claimed by an account.
    DuplicateEmail,
    /// A presented verification token matches no single pending token.
    InvalidToken,
    /// A presented verification token matched, but its window has passed.
    ExpiredToken,
    /// The operation is not permitted for the caller: the target belongs to
    /// a different account, or the account's own state rules it out (an
    /// account that never confirmed its email may not change it).
    Forbidden,
    /// No record with the given id exists.
    NotFound,
    /// The underlying store could not complete the operation.
    StoreUnavailable,
}

impl AuthError {
    /// A short stable label for transports and logs.
    pub fn label(&self) -> (r: &'static str)
        ensures
            r@.len() > 0,
    {
        let s: &'static str = match self {
            AuthError::InvalidCredentials => "invalid_credentials",
            AuthError::DuplicateEmail => "duplicate_email",
            AuthError::InvalidToken => "invalid_token",
            AuthError::ExpiredToken => "expired_token",
            AuthError::Forbidden => "forbidden",
            AuthError::NotFound => "not_found",
            AuthError::StoreUnavailable => "store_unavailable",
        };
        proof {
            reveal_strlit("invalid_credentials");
            reveal_strlit("duplicate_email");
            reveal_strlit("invalid_token");
            reveal_strlit("expired_token");
            reveal_strlit("forbidden");
            reveal_strlit("not_found");
            reveal_strlit("store_unavailable");
        }
        s
    }
}

} // verus!
