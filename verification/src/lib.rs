//! An account-and-session authentication core.
//!
//! Accounts carry a credential hash and an email-verification state; sessions
//! bind bearer tokens to accounts.  An auth facade orchestrates account
//! creation, login, email verification and email changes, and session
//! lifecycle against in-memory stores whose invariants (unique ids, unique
//! normalised emails, unique bearer tokens) are machine-checked.

pub mod account;
pub mod auth;
pub mod errors;
pub mod external;
pub mod session;
pub mod verification;

pub use errors::AuthError;
