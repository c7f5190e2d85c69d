//! The state machine, the stores, and the facade's edges on concrete values.

use rauth::account::AccountStore;
use rauth::auth::{Auth, AuthConfig};
use rauth::errors::AuthError;
use rauth::session::{SessionStore, SESSION_TOKEN_LENGTH};
use rauth::verification::{confirm, email_change_state, Verification};

#[test]
fn error_labels_are_stable() {
    assert_eq!(AuthError::InvalidCredentials.label(), "invalid_credentials");
    assert_eq!(AuthError::DuplicateEmail.label(), "duplicate_email");
    assert_eq!(AuthError::InvalidToken.label(), "invalid_token");
    assert_eq!(AuthError::ExpiredToken.label(), "expired_token");
    assert_eq!(AuthError::Forbidden.label(), "forbidden");
    assert_eq!(AuthError::NotFound.label(), "not_found");
    assert_eq!(AuthError::StoreUnavailable.label(), "store_unavailable");
}

#[test]
fn confirm_unverified_with_matching_token() {
    let v = Verification::Unverified { token: "abc123".into() };
    let r = confirm(&v, &"a@example.com".to_string(), &"abc123".to_string(), 0);
    assert_eq!(r, Ok("a@example.com".to_string()));
}

#[test]
fn confirm_unverified_with_wrong_token() {
    let v = Verification::Unverified { token: "abc123".into() };
    let r = confirm(&v, &"a@example.com".to_string(), &"abc124".to_string(), 0);
    assert_eq!(r, Err(AuthError::InvalidToken));
}

#[test]
fn confirm_on_verified_state_fails() {
    let r = confirm(
        &Verification::Verified,
        &"a@example.com".to_string(),
        &"anything".to_string(),
        0,
    );
    assert_eq!(r, Err(AuthError::InvalidToken));
}

#[test]
fn confirm_moving_token_checked_before_expiry() {
    let v = Verification::Moving {
        new_email: "b@example.com".into(),
        token: "tok".into(),
        expiry: 100,
    };
    // A mismatched token is reported as invalid even when time has run out.
    assert_eq!(
        confirm(&v, &"a@example.com".to_string(), &"other".to_string(), 101),
        Err(AuthError::InvalidToken)
    );
    assert_eq!(
        confirm(&v, &"a@example.com".to_string(), &"tok".to_string(), 101),
        Err(AuthError::ExpiredToken)
    );
    // The boundary is inclusive: now equal to the expiry still succeeds.
    assert_eq!(
        confirm(&v, &"a@example.com".to_string(), &"tok".to_string(), 100),
        Ok("b@example.com".to_string())
    );
}

#[test]
fn email_change_state_expiry_is_now_plus_window() {
    let v = email_change_state("b@example.com".into(), "tok".into(), 1_000, 3_600);
    match v {
        Verification::Moving { new_email, token, expiry } => {
            assert_eq!(new_email, "b@example.com");
            assert_eq!(token, "tok");
            assert_eq!(expiry, 4_600);
        }
        other => panic!("expected a pending move, found {:?}", other),
    }
}

#[test]
fn email_change_state_expiry_saturates() {
    let v = email_change_state("b@example.com".into(), "tok".into(), i64::MAX - 5, 10);
    match v {
        Verification::Moving { expiry, .. } => assert_eq!(expiry, i64::MAX),
        other => panic!("expected a pending move, found {:?}", other),
    }
}

#[test]
fn account_store_finds_by_id_and_email() {
    let mut store = AccountStore::new();
    let a = store
        .create(
            "A@Example.Com".into(),
            "a@example.com".into(),
            "hash-artifact".into(),
            Verification::Verified,
        )
        .unwrap();
    assert_eq!(a.id, 0);
    assert_eq!(store.find_by_id(0).unwrap().email, "A@Example.Com");
    assert!(store.find_by_id(1).is_none());
    let by_email = store
        .find_by_normalized_email(&"a@example.com".to_string())
        .unwrap();
    assert_eq!(by_email.id, 0);
    assert!(store
        .find_by_normalized_email(&"b@example.com".to_string())
        .is_none());
}

#[test]
fn account_store_rejects_taken_normalised_email() {
    let mut store = AccountStore::new();
    store
        .create(
            "a@example.com".into(),
            "a@example.com".into(),
            "hash-one".into(),
            Verification::Verified,
        )
        .unwrap();
    let r = store.create(
        "other@mail".into(),
        "a@example.com".into(),
        "hash-two".into(),
        Verification::Verified,
    );
    assert_eq!(r.unwrap_err(), AuthError::DuplicateEmail);
}

#[test]
fn account_store_updates_password_and_verification() {
    let mut store = AccountStore::new();
    store
        .create(
            "a@example.com".into(),
            "a@example.com".into(),
            "old-hash".into(),
            Verification::Unverified { token: "t".into() },
        )
        .unwrap();
    assert!(store.update_password(0, "new-hash".into()).is_ok());
    assert_eq!(store.find_by_id(0).unwrap().password_hash, "new-hash");
    assert_eq!(
        store.update_password(7, "x".into()),
        Err(AuthError::NotFound)
    );
    assert!(store.update_verification(0, Verification::Verified).is_ok());
    assert!(matches!(
        store.find_by_id(0).unwrap().verification,
        Verification::Verified
    ));
}

#[test]
fn session_store_rejects_taken_token_and_exhausted_ids() {
    let mut store = SessionStore::new();
    store
        .insert_session(1, None, "token-one".into())
        .unwrap();
    let collision = store.insert_session(2, None, "token-one".into());
    assert_eq!(collision.unwrap_err(), AuthError::StoreUnavailable);
    assert_eq!(store.sessions.len(), 1);

    let mut exhausted = SessionStore { next_id: u64::MAX, sessions: Vec::new() };
    let r = exhausted.insert_session(1, None, "token-two".into());
    assert_eq!(r.unwrap_err(), AuthError::StoreUnavailable);
}

#[test]
fn session_store_delete_checks_ownership() {
    let mut store = SessionStore::new();
    let s = store.insert_session(1, None, "token-one".into()).unwrap();
    assert_eq!(
        store.delete_if_owned_by(s.id, 2),
        Err(AuthError::Forbidden)
    );
    assert_eq!(store.delete_if_owned_by(9, 1), Err(AuthError::NotFound));
    assert!(store.delete_if_owned_by(s.id, 1).is_ok());
    assert!(store.sessions.is_empty());
    assert_eq!(store.delete(0), Err(AuthError::NotFound));
}

#[test]
fn session_listing_exposes_only_own_metadata() {
    let mut store = SessionStore::new();
    store
        .insert_session(1, Some("laptop".into()), "t1".into())
        .unwrap();
    store.insert_session(2, None, "t2".into()).unwrap();
    store
        .insert_session(1, Some("phone".into()), "t3".into())
        .unwrap();
    let infos = store.find_all_for_user(1);
    assert_eq!(infos.len(), 2);
    assert_eq!(infos[0].friendly_name, Some("laptop".to_string()));
    assert_eq!(infos[1].friendly_name, Some("phone".to_string()));
    assert_eq!(store.find_all_for_user(3).len(), 0);
}

#[test]
fn minted_tokens_are_long_distinct_and_url_safe() {
    let mut store = SessionStore::new();
    let s1 = store.create(1, None).unwrap();
    let s2 = store.create(1, None).unwrap();
    assert_eq!(s1.session_token.len(), SESSION_TOKEN_LENGTH);
    assert_eq!(s2.session_token.len(), SESSION_TOKEN_LENGTH);
    assert_ne!(s1.session_token, s2.session_token);
    for token in [&s1.session_token, &s2.session_token] {
        assert!(token
            .chars()
            .all(|c| c.is_ascii_alphanumeric() || c == '_' || c == '-'));
    }
}

#[test]
fn stored_hash_is_not_the_password() {
    let mut auth = Auth::new(AuthConfig::new(false, 3600));
    let id = auth
        .create_account("a@example.com".into(), "secret123".into(), false)
        .unwrap();
    let account = auth.find_account(id).unwrap();
    assert_ne!(account.password_hash, "secret123");
    let session = auth.create_session(&account, "s".into()).unwrap();
    assert!(auth.verify_password(&session, "secret123".into()).is_ok());
}

#[test]
fn verify_password_distinguishes_unknown_account() {
    let mut auth = Auth::new(AuthConfig::new(false, 3600));
    let id = auth
        .create_account("a@example.com".into(), "secret123".into(), false)
        .unwrap();
    let account = auth.find_account(id).unwrap();
    let mut session = auth.create_session(&account, "s".into()).unwrap();
    assert_eq!(
        auth.verify_password(&session, "wrong".into()),
        Err(AuthError::InvalidCredentials)
    );
    session.user_id = id + 1;
    assert_eq!(
        auth.verify_password(&session, "secret123".into()),
        Err(AuthError::NotFound)
    );
}

#[test]
fn check_email_is_use_normalises_and_detects() {
    let mut auth = Auth::new(AuthConfig::new(false, 3600));
    assert_eq!(
        auth.check_email_is_use("B@Example.Com".into()),
        Ok("b@example.com".to_string())
    );
    auth.create_account("b@example.com".into(), "secret123".into(), false)
        .unwrap();
    assert_eq!(
        auth.check_email_is_use("B@EXAMPLE.COM".into()),
        Err(AuthError::DuplicateEmail)
    );
}

#[test]
fn unverified_account_can_log_in_and_confirm() {
    // Policy: an account that has not yet confirmed its email may log in;
    // its current email stays authoritative until changed.
    let mut auth = Auth::new(AuthConfig::new(true, 3600));
    let id = auth
        .create_account("a@example.com".into(), "secret123".into(), true)
        .unwrap();

    let code = match &auth.find_account(id).unwrap().verification {
        Verification::Unverified { token } => {
            assert_eq!(token.len(), 32);
            token.clone()
        }
        other => panic!("expected an unverified account, found {:?}", other),
    };

    assert!(auth
        .login("a@example.com".into(), "secret123".into())
        .is_ok());

    assert!(auth.verify_account(code, 0).is_ok());
    assert!(matches!(
        auth.find_account(id).unwrap().verification,
        Verification::Verified
    ));
}
