//! End-to-end behaviour of the facade on concrete values: uniqueness,
//! credential checks, the email-change handshake, and session lifecycles.

use rauth::auth::{Auth, AuthConfig, ChangeEmail};
use rauth::errors::AuthError;
use rauth::verification::Verification;

fn auth_plain() -> Auth {
    // Email verification switched off: accounts are usable at once.
    Auth::new(AuthConfig::new(false, 3600))
}

fn auth_verified() -> Auth {
    // Email verification on, with an hour-long confirmation window.
    Auth::new(AuthConfig::new(true, 3600))
}

#[test]
fn duplicate_email_rejected_case_insensitively() {
    let mut auth = auth_plain();
    auth.create_account("a@example.com".into(), "secret123".into(), false)
        .unwrap();
    let r = auth.create_account("A@Example.Com".into(), "other-pass".into(), false);
    assert_eq!(r, Err(AuthError::DuplicateEmail));
    assert_eq!(auth.accounts.accounts.len(), 1);
}

#[test]
fn email_change_commit_respects_uniqueness_race() {
    // An account creation and a pending email change race on the same
    // address: whichever commits second must fail with DuplicateEmail.
    let mut auth = auth_verified();
    let id_c = auth
        .create_account("c@example.com".into(), "secret123".into(), false)
        .unwrap();
    let session = auth
        .login("c@example.com".into(), "secret123".into())
        .unwrap();

    let token = auth
        .change_email(
            &session,
            ChangeEmail { password: "secret123".into(), new_email: "d@example.com".into() },
            0,
        )
        .unwrap()
        .unwrap();

    // The address is claimed by a new account while the change is pending.
    auth.create_account("d@example.com".into(), "secret456".into(), false)
        .unwrap();

    // Committing the pending change must now fail, not overwrite.
    assert_eq!(auth.verify_account(token, 0), Err(AuthError::DuplicateEmail));
    let c = auth.find_account(id_c).unwrap();
    assert_eq!(c.email, "c@example.com");
    assert_eq!(c.email_normalised, "c@example.com");
}

#[test]
fn login_round_trips_through_find_by_token() {
    let mut auth = auth_plain();
    let id = auth
        .create_account("a@example.com".into(), "secret123".into(), false)
        .unwrap();
    let session = auth
        .login("a@example.com".into(), "secret123".into())
        .unwrap();
    assert_eq!(session.user_id, id);

    let resolved = auth.authenticate(&session.session_token).unwrap();
    assert_eq!(resolved.id, session.id);
    assert_eq!(resolved.user_id, id);
}

#[test]
fn login_failures_are_indistinguishable() {
    let mut auth = auth_plain();
    auth.create_account("a@example.com".into(), "secret123".into(), false)
        .unwrap();

    let wrong_password = auth
        .login("a@example.com".into(), "not-the-password".into())
        .unwrap_err();
    let unknown_email = auth
        .login("nobody@example.com".into(), "secret123".into())
        .unwrap_err();

    assert_eq!(wrong_password, AuthError::InvalidCredentials);
    assert_eq!(unknown_email, AuthError::InvalidCredentials);
    assert_eq!(wrong_password, unknown_email);
}

#[test]
fn confirm_moving_before_and_after_expiry() {
    let mut auth = auth_verified();
    let id = auth
        .create_account("a@example.com".into(), "secret123".into(), false)
        .unwrap();
    let session = auth
        .login("a@example.com".into(), "secret123".into())
        .unwrap();

    // The change is requested at second 1000 with an hour-long window.
    let token = auth
        .change_email(
            &session,
            ChangeEmail { password: "secret123".into(), new_email: "b@example.com".into() },
            1_000,
        )
        .unwrap()
        .unwrap();

    match &auth.find_account(id).unwrap().verification {
        Verification::Moving { new_email, expiry, .. } => {
            assert_eq!(new_email.as_str(), "b@example.com");
            assert_eq!(*expiry, 4_600);
        }
        other => panic!("expected a pending move, found {:?}", other),
    }

    // One second too late: the state is left unchanged.
    let late = auth.verify_account(token.clone(), 4_601);
    assert_eq!(late, Err(AuthError::ExpiredToken));
    assert!(matches!(
        auth.find_account(id).unwrap().verification,
        Verification::Moving { .. }
    ));

    // On the last second of the window: the new email becomes canonical.
    assert!(auth.verify_account(token, 4_600).is_ok());
    let account = auth.find_account(id).unwrap();
    assert_eq!(account.email, "b@example.com");
    assert_eq!(account.email_normalised, "b@example.com");
    assert!(matches!(account.verification, Verification::Verified));
}

#[test]
fn confirm_with_fabricated_token_fails() {
    let mut auth = auth_verified();
    let id = auth
        .create_account("a@example.com".into(), "secret123".into(), false)
        .unwrap();
    let session = auth
        .login("a@example.com".into(), "secret123".into())
        .unwrap();
    auth.change_email(
        &session,
        ChangeEmail { password: "secret123".into(), new_email: "b@example.com".into() },
        0,
    )
    .unwrap()
    .unwrap();

    let r = auth.verify_account("fabricated-token".into(), 0);
    assert_eq!(r, Err(AuthError::InvalidToken));
    assert_eq!(auth.find_account(id).unwrap().email, "a@example.com");
}

#[test]
fn deauth_of_foreign_session_is_forbidden() {
    let mut auth = auth_plain();
    auth.create_account("a@example.com".into(), "secret123".into(), false)
        .unwrap();
    auth.create_account("b@example.com".into(), "secret456".into(), false)
        .unwrap();
    let session_a = auth
        .login("a@example.com".into(), "secret123".into())
        .unwrap();
    let session_b = auth
        .login("b@example.com".into(), "secret456".into())
        .unwrap();

    let r = auth.deauth_session(&session_a, session_b.id);
    assert_eq!(r, Err(AuthError::Forbidden));
    // The record was not deleted: the foreign token still resolves.
    assert_eq!(auth.sessions.sessions.len(), 2);
    assert!(auth.authenticate(&session_b.session_token).is_some());
}

#[test]
fn session_lifecycle_scenario() {
    let mut auth = auth_plain();
    auth.create_account("a@example.com".into(), "secret123".into(), false)
        .unwrap();

    let s1 = auth
        .login("a@example.com".into(), "secret123".into())
        .unwrap();
    let s2 = auth
        .login("a@example.com".into(), "secret123".into())
        .unwrap();
    assert_ne!(s1.id, s2.id);
    assert_ne!(s1.session_token, s2.session_token);

    let listed = auth.fetch_all_sessions(&s2);
    assert_eq!(listed.len(), 2);
    assert!(listed.iter().any(|i| i.id == s1.id));
    assert!(listed.iter().any(|i| i.id == s2.id));

    assert!(auth.deauth_session(&s1, s1.id).is_ok());

    let listed_after = auth.fetch_all_sessions(&s2);
    assert_eq!(listed_after.len(), 1);
    assert_eq!(listed_after[0].id, s2.id);

    assert!(auth.authenticate(&s1.session_token).is_none());
    assert!(auth.authenticate(&s2.session_token).is_some());
}

#[test]
fn email_change_scenario() {
    let mut auth = auth_verified();
    let id = auth
        .create_account("a@example.com".into(), "secret123".into(), false)
        .unwrap();
    let session = auth
        .login("a@example.com".into(), "secret123".into())
        .unwrap();

    // A wrong password blocks the change before anything else is looked at.
    let refused = auth.change_email(
        &session,
        ChangeEmail { password: "wrong".into(), new_email: "b@example.com".into() },
        0,
    );
    assert_eq!(refused, Err(AuthError::InvalidCredentials));

    // Changing to an address an account holds — one's own included — fails.
    let taken = auth.change_email(
        &session,
        ChangeEmail { password: "secret123".into(), new_email: "A@EXAMPLE.COM".into() },
        0,
    );
    assert_eq!(taken, Err(AuthError::DuplicateEmail));

    let token = auth
        .change_email(
            &session,
            ChangeEmail { password: "secret123".into(), new_email: "B@Example.Com".into() },
            0,
        )
        .unwrap()
        .unwrap();
    assert!(auth.verify_account(token, 0).is_ok());

    let account = auth.find_account(id).unwrap();
    assert_eq!(account.email, "B@Example.Com");
    assert_eq!(account.email_normalised, "b@example.com");
}
