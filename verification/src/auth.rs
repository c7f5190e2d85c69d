//! The auth facade: the one entry point route handlers call.
//!
//! It owns the two stores and the configuration, validates invariants,
//! delegates persistence, uses the hasher and token generator, and drives the
//! verification state machine.

use vstd::prelude::*;

use crate::account::Account;
use crate::account::AccountStore;
use crate::account::count_token_matches;
use crate::account::email_taken_by_other;
use crate::account::lemma_sole_account_index;
use crate::account::lemma_sole_token_match;
use crate::account::spec_has_account_id;
use crate::account::spec_has_email;
use crate::account::token_matches;
use crate::errors::AuthError;
use crate::external::check_password;
use crate::external::hash_password;
use crate::external::lowercase;
use crate::external::lowercase_of;
use crate::external::password_verifies;
use crate::external::random_token;
use crate::external::url_safe_chars;
use crate::session::Session;
use crate::session::SessionInfo;
use crate::session::SessionStore;
use crate::session::metadata_for;
use crate::session::spec_has_session_id;
use crate::session::spec_has_token;
use crate::session::SESSION_TOKEN_LENGTH;
use crate::verification::Verification;
use crate::verification::email_change_state;
use crate::verification::expiry_of;

verus! {

/// How many characters a verification token holds.
pub const VERIFICATION_TOKEN_LENGTH: usize = 32;

/// How many characters of random salt go into each credential hash.
pub const SALT_LENGTH: usize = 24;

/// The configuration the facade is constructed with; it is never read from
/// ambient state.
#[derive(Clone, Copy, PartialEq, Eq, Structural)]
pub struct AuthConfig {
    /// Whether a new account, or a changed email, must confirm the address
    /// by token before it becomes canonical.
    pub verify_email: bool,
    /// How long a requested email change stays confirmable, in seconds.
    pub verification_expiry_seconds: i64,
}

impl AuthConfig {
    /// The configuration's invariant: the expiry window is no time or more.
    pub open spec fn wf(&self) -> bool {
        0 <= self.verification_expiry_seconds
    }

    /// A configuration with the given flag and window; a negative window is
    /// clamped to zero.
    pub fn new(verify_email: bool, verification_expiry_seconds: i64) -> (r: AuthConfig)
        ensures
            r.wf(),
            r.verify_email == verify_email,
            r.verification_expiry_seconds == if verification_expiry_seconds < 0 {
                0
            } else {
                verification_expiry_seconds
            },
    {
        AuthConfig {
            verify_email,
            verification_expiry_seconds: if verification_expiry_seconds < 0 {
                0
            } else {
                verification_expiry_seconds
            },
        }
    }
}

/// A validated email-change request: the account holder re-proves the
/// password and names the address to move to.
pub struct ChangeEmail {
    pub password: String,
    pub new_email: String,
}

/// True when the account at slot `i` carries the normalised form of `email`
/// and its stored credential hash accepts `password`.
pub open spec fn credentials_ok(
    s: Seq<Account>,
    email: Seq<char>,
    password: Seq<char>,
    i: int,
) -> bool {
    &&& 0 <= i < s.len()
    &&& s[i].email_normalised@ == lowercase_of(email)
    &&& password_verifies(password, s[i].password_hash@)
}

/// True when some account accepts the pair of `email` and `password`.  Its
/// negation covers an unknown email and a wrong password alike.
pub open spec fn login_accepted(s: Seq<Account>, email: Seq<char>, password: Seq<char>) -> bool {
    exists|i: int| credentials_ok(s, email, password, i)
}

/// True when the account with id `uid` exists and its stored credential hash
/// accepts `password`.
pub open spec fn password_matches_account(s: Seq<Account>, uid: u64, password: Seq<char>) -> bool {
    exists|i: int| 0 <= i < s.len() && s[i].id == uid && password_verifies(password, s[i].password_hash@)
}

/// Law: a login attempt against an email no account carries and one against
/// a known email with a password its hash rejects are both rejected — and
/// `login`'s contract then forces the very same `InvalidCredentials` error
/// for the two, so a caller cannot tell which part of a credential was
/// wrong.
pub proof fn lemma_login_failure_indistinguishable(
    s: Seq<Account>,
    unknown_email: Seq<char>,
    any_password: Seq<char>,
    known_email: Seq<char>,
    wrong_password: Seq<char>,
)
    requires
        !spec_has_email(s, lowercase_of(unknown_email)),
        forall|i: int|
            0 <= i < s.len() && s[i].email_normalised@ == lowercase_of(known_email)
                ==> !password_verifies(wrong_password, s[i].password_hash@),
    ensures
        !login_accepted(s, unknown_email, any_password),
        !login_accepted(s, known_email, wrong_password),
{
    assert forall|i: int| !credentials_ok(s, unknown_email, any_password, i) by {
        if credentials_ok(s, unknown_email, any_password, i) {
            assert(spec_has_email(s, lowercase_of(unknown_email)));
        }
    }
    assert forall|i: int| !credentials_ok(s, known_email, wrong_password, i) by {
    }
}

/// The auth facade.  All durable state lives in the two stores; the store is
/// the sole synchronization point, and every operation below is one atomic
/// step against it.
pub struct Auth {
    pub config: AuthConfig,
    pub accounts: AccountStore,
    pub sessions: SessionStore,
}

impl Auth {
    /// The facade's invariant: the configuration and both stores are
    /// well-formed.
    pub open spec fn wf(&self) -> bool {
        &&& self.config.wf()
        &&& self.accounts.wf()
        &&& self.sessions.wf()
    }

    /// A facade over empty stores.
    pub fn new(config: AuthConfig) -> (r: Auth)
        requires
            config.wf(),
        ensures
            r.wf(),
            r.config == config,
            r.accounts@ =~= Seq::<Account>::empty(),
            r.sessions@ =~= Seq::<Session>::empty(),
            r.accounts.next_id == 0,
            r.sessions.next_id == 0,
    {
        Auth { config, accounts: AccountStore::new(), sessions: SessionStore::new() }
    }

    /// Creates an account: the email is normalised and checked for
    /// uniqueness, the password is hashed with a fresh salt, and — when
    /// `verify_email` is asked for and enabled — a verification token is
    /// minted for the caller to dispatch by email.  Only the new account's id
    /// is returned, never the password or the token.  The password must stay
    /// under the hasher's 4 GiB input limit; the request layer caps it far
    /// lower.
    pub fn create_account(&mut self, email: String, password: String, verify_email: bool) -> (r:
        Result<u64, AuthError>)
        requires
            old(self).wf(),
            password@.len() * 4 < 0x1_0000_0000,
        ensures
            final(self).wf(),
            final(self).sessions == old(self).sessions,
            final(self).config == old(self).config,
            r is Err <==> (spec_has_email(old(self).accounts@, lowercase_of(email@)) || old(
                self,
            ).accounts.next_id == u64::MAX),
            match r {
                Ok(id) => {
                    &&& id == old(self).accounts.next_id
                    &&& final(self).accounts.next_id == old(self).accounts.next_id + 1
                    &&& final(self).accounts@ == old(self).accounts@.push(
                        final(self).accounts@.last(),
                    )
                    &&& {
                        let a = final(self).accounts@.last();
                        &&& a.id == id
                        &&& a.email@ == email@
                        &&& a.email_normalised@ == lowercase_of(email@)
                        &&& password_verifies(password@, a.password_hash@)
                        &&& if verify_email && old(self).config.verify_email {
                            a.verification matches Verification::Unverified { token }
                                && token@.len() == VERIFICATION_TOKEN_LENGTH as int
                                && url_safe_chars(token@)
                        } else {
                            a.verification == Verification::Verified
                        }
                    }
                },
                Err(e) => {
                    &&& *final(self) == *old(self)
                    &&& if spec_has_email(old(self).accounts@, lowercase_of(email@)) {
                        e == AuthError::DuplicateEmail
                    } else {
                        e == AuthError::StoreUnavailable
                    }
                },
            },
    {
        let normalised = lowercase(&email);
        let salt = random_token(SALT_LENGTH);
        let hash = hash_password(&password, &salt);
        let verification = if verify_email && self.config.verify_email {
            Verification::Unverified { token: random_token(VERIFICATION_TOKEN_LENGTH) }
        } else {
            Verification::Verified
        };
        match self.accounts.create(email, normalised, hash, verification) {
            Ok(a) => Ok(a.id),
            Err(e) => Err(e),
        }
    }

    /// Logs in: the account is resolved by normalised email and the password
    /// is checked against its hash; both an unknown email and a wrong
    /// password fail with the same `InvalidCredentials`.  On success a new
    /// session is minted for the account.  An account that has not yet
    /// confirmed its email may log in: its current email is authoritative
    /// until changed.
    pub fn login(&mut self, email: String, password: String) -> (r: Result<Session, AuthError>)
        requires
            old(self).wf(),
        ensures
            final(self).wf(),
            final(self).accounts == old(self).accounts,
            final(self).config == old(self).config,
            r == Err::<Session, AuthError>(AuthError::InvalidCredentials) <==> !login_accepted(
                old(self).accounts@,
                email@,
                password@,
            ),
            r == Err::<Session, AuthError>(AuthError::StoreUnavailable) ==> (old(
                self,
            ).sessions.next_id == u64::MAX || old(self).sessions@.len() > 0),
            match r {
                Ok(s) => {
                    &&& forall|i: int|
                        credentials_ok(old(self).accounts@, email@, password@, i) ==> s.user_id
                            == old(self).accounts@[i].id
                    &&& s.id == old(self).sessions.next_id
                    &&& s.friendly_name is None
                    &&& s.session_token@.len() == SESSION_TOKEN_LENGTH as int
                    &&& url_safe_chars(s.session_token@)
                    &&& !spec_has_token(old(self).sessions@, s.session_token@)
                    &&& final(self).sessions@ == old(self).sessions@.push(s)
                    &&& final(self).sessions.next_id == old(self).sessions.next_id + 1
                },
                Err(e) => {
                    &&& final(self).sessions == old(self).sessions
                    &&& (e == AuthError::InvalidCredentials || (e == AuthError::StoreUnavailable
                        && login_accepted(old(self).accounts@, email@, password@)))
                },
            },
    {
        let ghost accs = self.accounts@;
        let normalised = lowercase(&email);
        let account = match self.accounts.find_by_normalized_email(&normalised) {
            Some(a) => a,
            None => {
                proof {
                    if login_accepted(accs, email@, password@) {
                        let i = choose|i: int| credentials_ok(accs, email@, password@, i);
                        assert(spec_has_email(accs, lowercase_of(email@)));
                    }
                }
                return Err(AuthError::InvalidCredentials);
            },
        };
        let ghost j = choose|j: int| 0 <= j < accs.len() && accs[j] == account;
        if !check_password(&password, &account.password_hash) {
            proof {
                if login_accepted(accs, email@, password@) {
                    let i = choose|i: int| credentials_ok(accs, email@, password@, i);
                    crate::account::lemma_sole_email_index(accs, i, j);
                }
            }
            return Err(AuthError::InvalidCredentials);
        }
        proof {
            assert(credentials_ok(accs, email@, password@, j));
            assert forall|i: int|
                credentials_ok(accs, email@, password@, i) implies accs[i].id == account.id by {
                crate::account::lemma_sole_email_index(accs, i, j);
            }
        }
        self.sessions.create(account.id, None)
    }

    /// Re-authenticates an already-logged-in account before a sensitive
    /// operation: the session's account must exist and its hash must accept
    /// the password.
    pub fn verify_password(&self, session: &Session, password: String) -> (r: Result<
        (),
        AuthError,
    >)
        requires
            self.wf(),
        ensures
            r is Ok <==> password_matches_account(self.accounts@, session.user_id, password@),
            match r {
                Ok(_) => true,
                Err(e) => if !spec_has_account_id(self.accounts@, session.user_id) {
                    e == AuthError::NotFound
                } else {
                    e == AuthError::InvalidCredentials
                },
            },
    {
        let ghost accs = self.accounts@;
        let account = match self.accounts.find_by_id(session.user_id) {
            Some(a) => a,
            None => {
                proof {
                    if password_matches_account(accs, session.user_id, password@) {
                        let i = choose|i: int|
                            0 <= i < accs.len() && accs[i].id == session.user_id
                                && password_verifies(password@, accs[i].password_hash@);
                        assert(spec_has_account_id(accs, session.user_id));
                    }
                }
                return Err(AuthError::NotFound);
            },
        };
        let ghost j = choose|j: int| 0 <= j < accs.len() && accs[j] == account;
        if check_password(&password, &account.password_hash) {
            Ok(())
        } else {
            proof {
                if password_matches_account(accs, session.user_id, password@) {
                    let i = choose|i: int|
                        0 <= i < accs.len() && accs[i].id == session.user_id && password_verifies(
                            password@,
                            accs[i].password_hash@,
                        );
                    lemma_sole_account_index(accs, j, session.user_id);
                }
            }
            Err(AuthError::InvalidCredentials)
        }
    }

    /// Normalises `new_email` and answers whether an account already claims
    /// it: the normalised form comes back when it is free, `DuplicateEmail`
    /// when it is taken — by any account, the caller's own included.
    pub fn check_email_is_use(&self, new_email: String) -> (r: Result<String, AuthError>)
        requires
            self.wf(),
        ensures
            r is Ok <==> !spec_has_email(self.accounts@, lowercase_of(new_email@)),
            match r {
                Ok(n) => n@ == lowercase_of(new_email@),
                Err(e) => e == AuthError::DuplicateEmail,
            },
    {
        let normalised = lowercase(&new_email);
        match self.accounts.find_by_normalized_email(&normalised) {
            Some(_) => Err(AuthError::DuplicateEmail),
            None => Ok(normalised),
        }
    }

    /// A copy of the account with id `id`, if any.
    pub fn find_account(&self, id: u64) -> (r: Option<Account>)
        ensures
            match r {
                Some(a) => a.id == id && exists|i: int|
                    0 <= i < self.accounts@.len() && self.accounts@[i] == a,
                None => !spec_has_account_id(self.accounts@, id),
            },
    {
        self.accounts.find_by_id(id)
    }

    /// Mints a session for `account` under the given label.
    pub fn create_session(&mut self, account: &Account, friendly_name: String) -> (r: Result<
        Session,
        AuthError,
    >)
        requires
            old(self).wf(),
        ensures
            final(self).wf(),
            final(self).accounts == old(self).accounts,
            final(self).config == old(self).config,
            r is Err ==> (old(self).sessions.next_id == u64::MAX || old(self).sessions@.len()
                > 0),
            match r {
                Ok(s) => {
                    &&& s.user_id == account.id
                    &&& s.id == old(self).sessions.next_id
                    &&& s.friendly_name == Some(friendly_name)
                    &&& s.session_token@.len() == SESSION_TOKEN_LENGTH as int
                    &&& url_safe_chars(s.session_token@)
                    &&& !spec_has_token(old(self).sessions@, s.session_token@)
                    &&& final(self).sessions@ == old(self).sessions@.push(s)
                    &&& final(self).sessions.next_id == old(self).sessions.next_id + 1
                },
                Err(e) => e == AuthError::StoreUnavailable && *final(self) == *old(self),
            },
    {
        self.sessions.create(account.id, Some(friendly_name))
    }

    /// Resolves a bearer token to a copy of its session — the explicit
    /// capability check at the top of every authenticated request.  Absence
    /// is an authorization failure at the boundary, not an error of the
    /// core.
    pub fn authenticate(&self, token: &String) -> (r: Option<Session>)
        ensures
            match r {
                Some(s) => s.session_token@ == token@ && self.sessions@.contains(s),
                None => !spec_has_token(self.sessions@, token@),
            },
    {
        self.sessions.find_by_token(token)
    }

    /// The metadata of every session of the session's owning account; bearer
    /// tokens are never re-exposed.
    pub fn fetch_all_sessions(&self, session: &Session) -> (r: Vec<SessionInfo>)
        ensures
            r@ == metadata_for(self.sessions@, session.user_id),
    {
        self.sessions.find_all_for_user(session.user_id)
    }

    /// Revokes the session with id `id` on behalf of `session`'s account.
    /// Revoking one's own current session is a logout and succeeds; a
    /// session of a different account is left untouched and the call fails
    /// with `Forbidden`.
    pub fn deauth_session(&mut self, session: &Session, id: u64) -> (r: Result<(), AuthError>)
        requires
            old(self).wf(),
        ensures
            final(self).wf(),
            final(self).accounts == old(self).accounts,
            final(self).config == old(self).config,
            final(self).sessions.next_id == old(self).sessions.next_id,
            match r {
                Ok(_) => forall|i: int|
                    0 <= i < old(self).sessions@.len() && old(self).sessions@[i].id == id ==> {
                        &&& old(self).sessions@[i].user_id == session.user_id
                        &&& final(self).sessions@ == old(self).sessions@.remove(i)
                    },
                Err(e) => {
                    &&& *final(self) == *old(self)
                    &&& if !spec_has_session_id(old(self).sessions@, id) {
                        e == AuthError::NotFound
                    } else {
                        e == AuthError::Forbidden && forall|i: int|
                            0 <= i < old(self).sessions@.len() && old(self).sessions@[i].id == id
                                ==> old(self).sessions@[i].user_id != session.user_id
                    }
                },
            },
            r is Ok <==> (spec_has_session_id(old(self).sessions@, id) && forall|i: int|
                0 <= i < old(self).sessions@.len() && old(self).sessions@[i].id == id ==> old(
                    self,
                ).sessions@[i].user_id == session.user_id),
    {
        self.sessions.delete_if_owned_by(id, session.user_id)
    }

    /// Confirms a pending verification: the account whose pending token is
    /// exactly `code` — there must be a single match — is driven through the
    /// state machine at time `now`.  From `Unverified` the account becomes
    /// `Verified`; from `Moving` the new email becomes canonical, provided
    /// the token's expiry has not passed and no other account has claimed
    /// the address since the change was requested.  A failure leaves the
    /// account as it was, to be re-issued by its owner.
    pub fn verify_account(&mut self, code: String, now: i64) -> (r: Result<(), AuthError>)
        requires
            old(self).wf(),
        ensures
            final(self).wf(),
            final(self).sessions == old(self).sessions,
            final(self).config == old(self).config,
            final(self).accounts.next_id == old(self).accounts.next_id,
            count_token_matches(old(self).accounts@, code@) != 1 ==> (r == Err::<
                (),
                AuthError,
            >(AuthError::InvalidToken) && *final(self) == *old(self)),
            count_token_matches(old(self).accounts@, code@) == 1 ==> forall|i: int|
                0 <= i < old(self).accounts@.len() && token_matches(old(self).accounts@[i], code@)
                    ==> {
                    let accs = old(self).accounts@;
                    let a = accs[i];
                    &&& (a.verification matches Verification::Unverified { .. } ==> {
                        &&& r == Ok::<(), AuthError>(())
                        &&& final(self).accounts@ == accs.update(
                            i,
                            (Account { verification: Verification::Verified, ..a }),
                        )
                    })
                    &&& (a.verification matches Verification::Moving { new_email, token, expiry }
                        ==> {
                        &&& (now > expiry ==> r == Err::<(), AuthError>(AuthError::ExpiredToken)
                            && *final(self) == *old(self))
                        &&& (now <= expiry && email_taken_by_other(
                            accs,
                            i,
                            lowercase_of(new_email@),
                        ) ==> r == Err::<(), AuthError>(AuthError::DuplicateEmail) && *final(self)
                            == *old(self))
                        &&& (now <= expiry && !email_taken_by_other(
                            accs,
                            i,
                            lowercase_of(new_email@),
                        ) ==> {
                            &&& r == Ok::<(), AuthError>(())
                            &&& final(self).accounts@.len() == accs.len()
                            &&& (forall|k: int|
                                0 <= k < accs.len() && k != i ==> final(self).accounts@[k]
                                    == accs[k])
                            &&& {
                                let b = final(self).accounts@[i];
                                &&& b.id == a.id
                                &&& b.email == new_email
                                &&& b.email_normalised@ == lowercase_of(new_email@)
                                &&& b.password_hash == a.password_hash
                                &&& b.verification == Verification::Verified
                            }
                        })
                    })
                },
    {
        let ghost accs = self.accounts@;
        let i = match self.accounts.find_sole_token_match(&code) {
            Some(i) => i,
            None => {
                return Err(AuthError::InvalidToken);
            },
        };
        proof {
            assert forall|k: int|
                0 <= k < accs.len() && token_matches(accs[k], code@) implies k == i as int by {
                lemma_sole_token_match(accs, code@, k, i as int);
            }
        }
        let id = self.accounts.accounts[i].id;
        proof {
            lemma_sole_account_index(accs, i as int, id);
            assert(spec_has_account_id(accs, id));
        }
        let v = self.accounts.accounts[i].verification.clone();
        match v {
            Verification::Unverified { .. } => {
                match self.accounts.update_verification(id, Verification::Verified) {
                    Ok(_) => Ok(()),
                    Err(_) => {
                        proof {
                            assert(false);
                        }
                        Err(AuthError::InvalidToken)
                    },
                }
            },
            Verification::Verified => {
                proof {
                    assert(false);
                }
                Err(AuthError::InvalidToken)
            },
            Verification::Moving { new_email, token: _, expiry } => {
                if now > expiry {
                    Err(AuthError::ExpiredToken)
                } else {
                    let normalised = lowercase(&new_email);
                    match self.accounts.commit_email(id, new_email, normalised) {
                        Ok(_) => Ok(()),
                        Err(e) => {
                            proof {
                                assert(e == AuthError::DuplicateEmail);
                            }
                            Err(e)
                        },
                    }
                }
            },
        }
    }

    /// Changes the email of the session's account, after a re-proof of the
    /// password.  The new address must be claimed by no account at all.
    /// With email verification enabled the account moves to `Moving`,
    /// confirmable until `now` — the caller's clock — plus the configured
    /// window, and the minted token comes back for the caller to dispatch to
    /// the new address; the current email stays authoritative until the
    /// token is confirmed.  With verification disabled the new email becomes
    /// canonical at once.  An account still `Unverified` may not change its
    /// email.
    pub fn change_email(&mut self, session: &Session, data: ChangeEmail, now: i64) -> (r: Result<
        Option<String>,
        AuthError,
    >)
        requires
            old(self).wf(),
        ensures
            final(self).wf(),
            final(self).sessions == old(self).sessions,
            final(self).config == old(self).config,
            final(self).accounts.next_id == old(self).accounts.next_id,
            r is Err ==> *final(self) == *old(self),
            r == Err::<Option<String>, AuthError>(AuthError::NotFound) <==> !spec_has_account_id(
                old(self).accounts@,
                session.user_id,
            ),
            r == Err::<Option<String>, AuthError>(AuthError::InvalidCredentials) <==> (
            spec_has_account_id(old(self).accounts@, session.user_id)
                && !password_matches_account(
                old(self).accounts@,
                session.user_id,
                data.password@,
            )),
            r == Err::<Option<String>, AuthError>(AuthError::DuplicateEmail) <==> (
            password_matches_account(old(self).accounts@, session.user_id, data.password@)
                && spec_has_email(old(self).accounts@, lowercase_of(data.new_email@))),
            r == Err::<Option<String>, AuthError>(AuthError::Forbidden) <==> (
            password_matches_account(old(self).accounts@, session.user_id, data.password@)
                && !spec_has_email(old(self).accounts@, lowercase_of(data.new_email@)) && (
            forall|i: int|
                0 <= i < old(self).accounts@.len() && old(self).accounts@[i].id == session.user_id
                    ==> old(self).accounts@[i].verification is Unverified)),
            r is Ok <==> (password_matches_account(
                old(self).accounts@,
                session.user_id,
                data.password@,
            ) && !spec_has_email(old(self).accounts@, lowercase_of(data.new_email@)) && (forall|
                i: int,
            |
                0 <= i < old(self).accounts@.len() && old(self).accounts@[i].id == session.user_id
                    ==> !(old(self).accounts@[i].verification is Unverified))),
            r is Ok ==> (old(self).config.verify_email <==> r matches Ok(Some(_))),
            r matches Ok(t) ==> forall|i: int|
                0 <= i < old(self).accounts@.len() && old(self).accounts@[i].id == session.user_id
                    ==> {
                    let accs = old(self).accounts@;
                    let a = accs[i];
                    &&& final(self).accounts@.len() == accs.len()
                    &&& (forall|k: int|
                        0 <= k < accs.len() && k != i ==> final(self).accounts@[k] == accs[k])
                    &&& {
                        let b = final(self).accounts@[i];
                        &&& b.id == a.id
                        &&& b.password_hash == a.password_hash
                        &&& (t matches Some(tok) ==> {
                            &&& b.email == a.email
                            &&& b.email_normalised == a.email_normalised
                            &&& tok@.len() == VERIFICATION_TOKEN_LENGTH as int
                            &&& url_safe_chars(tok@)
                            &&& (b.verification matches Verification::Moving {
                                new_email,
                                token,
                                expiry,
                            } && new_email@ == data.new_email@ && token@ == tok@ && expiry
                                == expiry_of(now, old(self).config.verification_expiry_seconds))
                        })
                        &&& (t is None ==> {
                            &&& b.email == data.new_email
                            &&& b.email_normalised@ == lowercase_of(data.new_email@)
                            &&& b.verification == Verification::Verified
                        })
                    }
                },
    {
        let ghost accs = self.accounts@;
        let ghost uid = session.user_id;
        let ghost pwd = data.password@;
        let ghost ne = data.new_email@;
        let ChangeEmail { password, new_email } = data;
        match self.verify_password(session, password) {
            Ok(_) => {},
            Err(e) => {
                return Err(e);
            },
        }
        let normalised = match self.check_email_is_use(new_email.clone()) {
            Ok(n) => n,
            Err(e) => {
                return Err(e);
            },
        };
        let account = match self.accounts.find_by_id(session.user_id) {
            Some(a) => a,
            None => {
                proof {
                    let i = choose|i: int|
                        0 <= i < accs.len() && accs[i].id == uid && password_verifies(
                            pwd,
                            accs[i].password_hash@,
                        );
                    assert(spec_has_account_id(accs, uid));
                    assert(false);
                }
                return Err(AuthError::NotFound);
            },
        };
        let ghost j = choose|j: int| 0 <= j < accs.len() && accs[j] == account;
        proof {
            lemma_sole_account_index(accs, j, uid);
        }
        match &account.verification {
            Verification::Unverified { .. } => {
                return Err(AuthError::Forbidden);
            },
            _ => {},
        }
        if self.config.verify_email {
            let token = random_token(VERIFICATION_TOKEN_LENGTH);
            let state = email_change_state(
                new_email,
                token.clone(),
                now,
                self.config.verification_expiry_seconds,
            );
            let ghost gstate = state;
            match self.accounts.update_verification(account.id, state) {
                Ok(_) => {
                    proof {
                        assert(accs[j].id == uid);
                        assert(self.accounts@ == accs.update(
                            j,
                            (Account { verification: gstate, ..accs[j] }),
                        ));
                    }
                    Ok(Some(token))
                },
                Err(_) => {
                    proof {
                        assert(false);
                    }
                    Err(AuthError::NotFound)
                },
            }
        } else {
            let ghost gne = new_email;
            let ghost gnorm = normalised;
            match self.accounts.commit_email(account.id, new_email, normalised) {
                Ok(_) => {
                    proof {
                        assert(accs[j].id == uid);
                        assert(!email_taken_by_other(accs, j, gnorm@)) by {
                            if email_taken_by_other(accs, j, gnorm@) {
                                let l = choose|l: int|
                                    0 <= l < accs.len() && l != j && accs[l].email_normalised@
                                        == gnorm@;
                                assert(spec_has_email(accs, lowercase_of(ne)));
                            }
                        }
                        assert(self.accounts@ == accs.update(
                            j,
                            (Account {
                                email: gne,
                                email_normalised: gnorm,
                                verification: Verification::Verified,
                                ..accs[j]
                            }),
                        ));
                    }
                    Ok(None)
                },
                Err(e) => {
                    proof {
                        assert forall|k: int|
                            0 <= k < accs.len() && accs[k].id == uid implies !email_taken_by_other(
                            accs,
                            k,
                            lowercase_of(ne),
                        ) by {
                            if email_taken_by_other(accs, k, lowercase_of(ne)) {
                                let l = choose|l: int|
                                    0 <= l < accs.len() && l != k && accs[l].email_normalised@
                                        == lowercase_of(ne);
                                assert(spec_has_email(accs, lowercase_of(ne)));
                            }
                        }
                        assert(false);
                    }
                    Err(e)
                },
            }
        }
    }

    /// Logs the session out of its own account: its record is deleted, so
    /// its bearer token stops resolving.
    pub fn logout(&mut self, session: &Session) -> (r: Result<(), AuthError>)
        requires
            old(self).wf(),
        ensures
            final(self).wf(),
            final(self).accounts == old(self).accounts,
            final(self).config == old(self).config,
            final(self).sessions.next_id == old(self).sessions.next_id,
            r is Ok <==> (spec_has_session_id(old(self).sessions@, session.id) && forall|i: int|
                0 <= i < old(self).sessions@.len() && old(self).sessions@[i].id == session.id
                    ==> old(self).sessions@[i].user_id == session.user_id),
            match r {
                Ok(_) => forall|i: int|
                    0 <= i < old(self).sessions@.len() && old(self).sessions@[i].id == session.id
                        ==> {
                        &&& old(self).sessions@[i].user_id == session.user_id
                        &&& final(self).sessions@ == old(self).sessions@.remove(i)
                    },
                Err(e) => {
                    &&& *final(self) == *old(self)
                    &&& (e == AuthError::NotFound || e == AuthError::Forbidden)
                },
            },
    {
        self.deauth_session(session, session.id)
    }
}

} // verus!
