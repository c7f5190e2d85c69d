//! The email-verification state machine: pure logic over the verification
//! variant of an account, a presented token and a point in time.

use vstd::prelude::*;

use crate::errors::AuthError;

verus! {

/// The email-verification state of an account.
#[derive(Debug)]
pub enum Verification {
    /// The account was created and awaits confirmation of its initial email.
    Unverified { token: String },
    /// The account's current email is confirmed.
    Verified,
    /// An email change is pending: the current email stays authoritative
    /// until `new_email` is confirmed with `token` no later than `expiry`.
    Moving { new_email: String, token: String, expiry: i64 },
}

impl Clone for Verification {
    fn clone(&self) -> (r: Self)
        ensures
            r == *self,
    {
        match self {
            Verification::Unverified { token } => (Verification::Unverified { token: token.clone() }),
            Verification::Verified => Verification::Verified,
            Verification::Moving { new_email, token, expiry } => (Verification::Moving {
                new_email: new_email.clone(),
                token: token.clone(),
                expiry: *expiry,
            }),
        }
    }
}

impl Verification {
    /// The token a caller would have to present to move this state forward,
    /// if there is one.
    pub open spec fn pending_token(&self) -> Option<Seq<char>> {
        match self {
            Verification::Unverified { token } => Some(token@),
            Verification::Verified => None,
            Verification::Moving { token, .. } => Some(token@),
        }
    }
}

/// The expiry stamp of a change requested at `now` with a window of `window`
/// seconds, saturating at the far end of time.
pub open spec fn expiry_of(now: i64, window: i64) -> i64 {
    if now + window > i64::MAX {
        i64::MAX
    } else {
        (now + window) as i64
    }
}

/// What `confirm` decides, as a function of the state, the account's current
/// email, the presented token and the current time: the email that becomes
/// canonical, or the exact failure.
pub open spec fn confirm_spec(
    v: Verification,
    current_email: Seq<char>,
    code: Seq<char>,
    now: i64,
) -> Result<Seq<char>, AuthError> {
    match v {
        Verification::Unverified { token } => if code == token@ {
            Ok(current_email)
        } else {
            Err(AuthError::InvalidToken)
        },
        Verification::Verified => Err(AuthError::InvalidToken),
        Verification::Moving { new_email, token, expiry } => if code != token@ {
            Err(AuthError::InvalidToken)
        } else if now > expiry {
            Err(AuthError::ExpiredToken)
        } else {
            Ok(new_email@)
        },
    }
}

/// Confirms a pending verification: from `Unverified` the account's current
/// email becomes canonical; from `Moving` the new email does, provided the
/// token matches exactly and `now` has not passed the expiry.  A mismatched
/// token fails with `InvalidToken`, a late confirmation with `ExpiredToken`,
/// and a state with nothing pending with `InvalidToken`; the state is left
/// for the account owner to re-issue.
pub fn confirm(v: &Verification, current_email: &String, code: &String, now: i64) -> (r: Result<
    String,
    AuthError,
>)
    ensures
        match r {
            Ok(email) => confirm_spec(*v, current_email@, code@, now) == Ok::<
                Seq<char>,
                AuthError,
            >(email@),
            Err(e) => confirm_spec(*v, current_email@, code@, now) == Err::<
                Seq<char>,
                AuthError,
            >(e),
        },
{
    match v {
        Verification::Unverified { token } => {
            if *code == *token {
                Ok(current_email.clone())
            } else {
                Err(AuthError::InvalidToken)
            }
        },
        Verification::Verified => Err(AuthError::InvalidToken),
        Verification::Moving { new_email, token, expiry } => {
            if *code != *token {
                Err(AuthError::InvalidToken)
            } else if now > *expiry {
                Err(AuthError::ExpiredToken)
            } else {
                Ok(new_email.clone())
            }
        },
    }
}

/// The state a validated email-change request moves an account into: `Moving`
/// towards `new_email`, confirmable with `token` until `now + window`.
pub fn email_change_state(new_email: String, token: String, now: i64, window: i64) -> (r:
    Verification)
    requires
        0 <= window,
    ensures
        r == (Verification::Moving { new_email, token, expiry: expiry_of(now, window) }),
{
    let expiry: i64 = if now > i64::MAX - window {
        i64::MAX
    } else {
        now + window
    };
    Verification::Moving { new_email, token, expiry }
}

} // verus!
