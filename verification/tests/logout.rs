//! Session logout, driven through the auth facade.

use rauth::auth::{Auth, AuthConfig};
use rauth::errors::AuthError;

fn auth_for_test() -> Auth {
    Auth::new(AuthConfig::new(false, 3600))
}

#[test]
fn success() {
    let mut auth = auth_for_test();

    let id = auth
        .create_account("email@example.com".into(), "password".into(), false)
        .unwrap();
    let account = auth.find_account(id).unwrap();

    let session = auth.create_session(&account, "my session".into()).unwrap();

    assert!(auth.logout(&session).is_ok());
    assert!(auth.authenticate(&session.session_token).is_none());
}

#[test]
fn fail_invalid_session() {
    let mut auth = auth_for_test();

    let id = auth
        .create_account("email@example.com".into(), "password".into(), false)
        .unwrap();
    let account = auth.find_account(id).unwrap();
    let session = auth.create_session(&account, "my session".into()).unwrap();

    // A fabricated bearer token authenticates nothing.
    assert!(auth.authenticate(&"invalid".to_string()).is_none());

    // A fabricated session record cannot log anyone out.
    let mut forged = session;
    forged.id = forged.id + 1;
    assert_eq!(auth.logout(&forged), Err(AuthError::NotFound));
    assert_eq!(auth.sessions.sessions.len(), 1);
}

#[test]
fn fail_no_session() {
    let mut auth = auth_for_test();

    let id = auth
        .create_account("email@example.com".into(), "password".into(), false)
        .unwrap();
    let account = auth.find_account(id).unwrap();
    let session = auth.create_session(&account, "my session".into()).unwrap();

    // Logging out twice: the second attempt finds no session any more.
    assert!(auth.logout(&session).is_ok());
    assert_eq!(auth.logout(&session), Err(AuthError::NotFound));
}
