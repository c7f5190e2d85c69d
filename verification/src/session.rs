//! Sessions and the session store.
//!
//! A session binds a high-entropy bearer token to the account that logged in.
//! The store keeps session ids and bearer tokens unique, enumerates the
//! sessions of one account, and revokes sessions only for their owner.

use vstd::prelude::*;

use crate::errors::AuthError;
use crate::external::random_token;
use crate::external::url_safe_chars;

verus! {

/// How many characters a freshly minted bearer token holds.
pub const SESSION_TOKEN_LENGTH: usize = 64;

/// One authenticated client of an account.
#[derive(Debug)]
pub struct Session {
    /// Opaque unique identifier; distinct from the bearer token.
    pub id: u64,
    /// The owning account's id.
    pub user_id: u64,
    /// The bearer secret a client presents on later requests.  It is
    /// returned in full only once, by the call that created the session.
    pub session_token: String,
    /// An optional label for the account holder's session listing.
    pub friendly_name: Option<String>,
}

impl Clone for Session {
    fn clone(&self) -> (r: Self)
        ensures
            r == *self,
    {
        Session {
            id: self.id,
            user_id: self.user_id,
            session_token: self.session_token.clone(),
            friendly_name: match &self.friendly_name {
                Some(n) => Some(n.clone()),
                None => None,
            },
        }
    }
}

/// What a session listing exposes: everything but the bearer token.
#[derive(Debug)]
pub struct SessionInfo {
    pub id: u64,
    pub friendly_name: Option<String>,
}

/// The listing entry of a session.
pub open spec fn info_of(s: Session) -> SessionInfo {
    SessionInfo { id: s.id, friendly_name: s.friendly_name }
}

/// True when some session in `s` holds the bearer token `t`.
pub open spec fn spec_has_token(s: Seq<Session>, t: Seq<char>) -> bool {
    exists|i: int| 0 <= i < s.len() && s[i].session_token@ == t
}

/// True when some session in `s` has id `id`.
pub open spec fn spec_has_session_id(s: Seq<Session>, id: u64) -> bool {
    exists|i: int| 0 <= i < s.len() && s[i].id == id
}

/// No two sessions hold the same id.
pub open spec fn session_ids_unique(s: Seq<Session>) -> bool {
    forall|i: int, j: int| 0 <= i < j < s.len() ==> s[i].id != s[j].id
}

/// No two sessions hold the same bearer token.
pub open spec fn tokens_unique(s: Seq<Session>) -> bool {
    forall|i: int, j: int| 0 <= i < j < s.len() ==> s[i].session_token@ != s[j].session_token@
}

/// Every session id lies below the store's id counter.
pub open spec fn session_ids_below(s: Seq<Session>, n: u64) -> bool {
    forall|i: int| 0 <= i < s.len() ==> s[i].id < n
}

/// The listing of the sessions in `s` owned by `user_id`, in store order.
pub open spec fn metadata_for(s: Seq<Session>, user_id: u64) -> Seq<SessionInfo>
    decreases s.len(),
{
    if s.len() == 0 {
        Seq::empty()
    } else {
        metadata_for(s.drop_last(), user_id) + if s.last().user_id == user_id {
            seq![info_of(s.last())]
        } else {
            Seq::empty()
        }
    }
}

/// The session store: all durable session state.
pub struct SessionStore {
    /// The next id to assign; every stored id lies below it.
    pub next_id: u64,
    pub sessions: Vec<Session>,
}

impl View for SessionStore {
    type V = Seq<Session>;

    open spec fn view(&self) -> Seq<Session> {
        self.sessions@
    }
}

/// Law: in a well-formed store a bearer token belongs to at most one session,
/// so resolving a stored session's token can only yield that session — in
/// particular the session a successful login returned, with its `user_id`.
pub proof fn lemma_token_round_trip(store: SessionStore, s: Session, r: Session)
    requires
        store.wf(),
        store@.contains(s),
        store@.contains(r),
        r.session_token@ == s.session_token@,
    ensures
        r == s,
{
    let i = choose|i: int| 0 <= i < store@.len() && store@[i] == s;
    let j = choose|j: int| 0 <= j < store@.len() && store@[j] == r;
    if i < j {
        assert(store@[i].session_token@ != store@[j].session_token@);
    } else if j < i {
        assert(store@[j].session_token@ != store@[i].session_token@);
    }
}

impl SessionStore {
    /// The store's invariant: unique ids, unique bearer tokens, and ids
    /// exhausted in order.
    pub open spec fn wf(&self) -> bool {
        &&& session_ids_unique(self@)
        &&& tokens_unique(self@)
        &&& session_ids_below(self@, self.next_id)
    }

    /// An empty store.
    pub fn new() -> (r: SessionStore)
        ensures
            r.wf(),
            r@ =~= Seq::<Session>::empty(),
            r.next_id == 0,
    {
        SessionStore { next_id: 0, sessions: Vec::new() }
    }

    /// The slot holding the session with id `id`, if any.
    fn index_of_id(&self, id: u64) -> (r: Option<usize>)
        ensures
            match r {
                Some(i) => i < self@.len() && self@[i as int].id == id,
                None => !spec_has_session_id(self@, id),
            },
    {
        let n = self.sessions.len();
        for i in 0..n
            invariant
                n == self@.len(),
                forall|k: int| 0 <= k < i ==> self@[k].id != id,
        {
            if self.sessions[i].id == id {
                return Some(i);
            }
        }
        None
    }

    /// Persists a session for `user_id` around an already minted bearer
    /// token.  Fails with `StoreUnavailable`, and writes nothing, when the
    /// token is already taken or the id space is exhausted.
    pub fn insert_session(&mut self, user_id: u64, friendly_name: Option<String>, token: String) -> (r:
        Result<Session, AuthError>)
        requires
            old(self).wf(),
        ensures
            final(self).wf(),
            r is Ok <==> (!spec_has_token(old(self)@, token@) && old(self).next_id < u64::MAX),
            match r {
                Ok(s) => {
                    &&& s == (Session {
                        id: old(self).next_id,
                        user_id,
                        session_token: token,
                        friendly_name,
                    })
                    &&& final(self)@ == old(self)@.push(s)
                    &&& final(self).next_id == old(self).next_id + 1
                },
                Err(e) => e == AuthError::StoreUnavailable && *final(self) == *old(self),
            },
    {
        if self.has_token(&token) {
            return Err(AuthError::StoreUnavailable);
        }
        if self.next_id == u64::MAX {
            return Err(AuthError::StoreUnavailable);
        }
        let session = Session { id: self.next_id, user_id, session_token: token, friendly_name };
        let result = session.clone();
        proof {
            lemma_session_push_keeps_wf(self@, session, self.next_id);
        }
        self.sessions.push(session);
        self.next_id = self.next_id + 1;
        Ok(result)
    }

    /// Mints a new id and a fresh high-entropy bearer token and persists the
    /// session.  The returned session is the only place the token is ever
    /// exposed in full.  Failure takes a token collision or an exhausted id
    /// space: on an empty store with ids to spare, success is owed.
    pub fn create(&mut self, user_id: u64, friendly_name: Option<String>) -> (r: Result<
        Session,
        AuthError,
    >)
        requires
            old(self).wf(),
        ensures
            final(self).wf(),
            r is Err ==> (old(self).next_id == u64::MAX || old(self)@.len() > 0),
            match r {
                Ok(s) => {
                    &&& s.id == old(self).next_id
                    &&& s.user_id == user_id
                    &&& s.friendly_name == friendly_name
                    &&& s.session_token@.len() == SESSION_TOKEN_LENGTH as int
                    &&& url_safe_chars(s.session_token@)
                    &&& !spec_has_token(old(self)@, s.session_token@)
                    &&& final(self)@ == old(self)@.push(s)
                    &&& final(self).next_id == old(self).next_id + 1
                },
                Err(e) => e == AuthError::StoreUnavailable && *final(self) == *old(self),
            },
    {
        let ghost s0 = self@;
        let token = random_token(SESSION_TOKEN_LENGTH);
        let ghost t = token@;
        let r = self.insert_session(user_id, friendly_name, token);
        proof {
            if r is Err && spec_has_token(s0, t) {
                let i = choose|i: int| 0 <= i < s0.len() && s0[i].session_token@ == t;
                assert(s0.len() > 0);
            }
        }
        r
    }

    /// True when some stored session holds the bearer token `t`.
    fn has_token(&self, t: &String) -> (r: bool)
        ensures
            r == spec_has_token(self@, t@),
    {
        let n = self.sessions.len();
        for i in 0..n
            invariant
                n == self@.len(),
                forall|k: int| 0 <= k < i ==> self@[k].session_token@ != t@,
        {
            if self.sessions[i].session_token == *t {
                return true;
            }
        }
        false
    }

    /// Resolves a bearer token to a copy of its session.  Absence is an
    /// answer, not an error, so callers can map it uniformly to an
    /// authorization failure.
    pub fn find_by_token(&self, token: &String) -> (r: Option<Session>)
        ensures
            match r {
                Some(s) => s.session_token@ == token@ && self@.contains(s),
                None => !spec_has_token(self@, token@),
            },
    {
        let n = self.sessions.len();
        for i in 0..n
            invariant
                n == self@.len(),
                forall|k: int| 0 <= k < i ==> self@[k].session_token@ != token@,
        {
            if self.sessions[i].session_token == *token {
                let s = self.sessions[i].clone();
                assert(self@.contains(s)) by {
                    assert(self@[i as int] == s);
                }
                return Some(s);
            }
        }
        None
    }

    /// The metadata — ids and labels, never tokens — of every session owned
    /// by `user_id`, in store order.
    pub fn find_all_for_user(&self, user_id: u64) -> (r: Vec<SessionInfo>)
        ensures
            r@ == metadata_for(self@, user_id),
    {
        let ghost s = self@;
        let n = self.sessions.len();
        let mut out: Vec<SessionInfo> = Vec::new();
        assert(out@ =~= metadata_for(s.take(0), user_id));
        for i in 0..n
            invariant
                n == s.len(),
                s == self@,
                out@ == metadata_for(s.take(i as int), user_id),
        {
            if self.sessions[i].user_id == user_id {
                let entry = SessionInfo {
                    id: self.sessions[i].id,
                    friendly_name: match &self.sessions[i].friendly_name {
                        Some(x) => Some(x.clone()),
                        None => None,
                    },
                };
                proof {
                    assert(entry == info_of(s[i as int]));
                }
                out.push(entry);
            }
            proof {
                assert(s.take(i + 1).drop_last() =~= s.take(i as int));
                assert(s.take(i + 1).last() == s[i as int]);
                assert(out@ =~= metadata_for(s.take(i + 1), user_id));
            }
        }
        proof {
            assert(s.take(n as int) =~= s);
        }
        out
    }

    /// Deletes the session with id `id`, whoever owns it — the primitive
    /// behind a logout of one's own session.
    pub fn delete(&mut self, id: u64) -> (r: Result<(), AuthError>)
        requires
            old(self).wf(),
        ensures
            final(self).wf(),
            final(self).next_id == old(self).next_id,
            r is Ok <==> spec_has_session_id(old(self)@, id),
            match r {
                Ok(_) => forall|i: int|
                    0 <= i < old(self)@.len() && old(self)@[i].id == id ==> final(self)@
                        == old(self)@.remove(i),
                Err(e) => e == AuthError::NotFound && *final(self) == *old(self),
            },
    {
        let i = match self.index_of_id(id) {
            Some(i) => i,
            None => {
                return Err(AuthError::NotFound);
            },
        };
        let ghost s = self@;
        proof {
            lemma_session_remove_keeps_wf(s, i as int, self.next_id);
            lemma_sole_session_index(s, i as int, id);
        }
        self.sessions.remove(i);
        Ok(())
    }

    /// Deletes the session with id `id` only when `user_id` owns it — the
    /// primitive behind revoking one of one's own sessions.  A session of a
    /// different account is left untouched and the call fails with
    /// `Forbidden`; an unknown id fails with `NotFound`.
    pub fn delete_if_owned_by(&mut self, id: u64, user_id: u64) -> (r: Result<(), AuthError>)
        requires
            old(self).wf(),
        ensures
            final(self).wf(),
            final(self).next_id == old(self).next_id,
            match r {
                Ok(_) => forall|i: int|
                    0 <= i < old(self)@.len() && old(self)@[i].id == id ==> {
                        &&& old(self)@[i].user_id == user_id
                        &&& final(self)@ == old(self)@.remove(i)
                    },
                Err(e) => {
                    &&& *final(self) == *old(self)
                    &&& if !spec_has_session_id(old(self)@, id) {
                        e == AuthError::NotFound
                    } else {
                        e == AuthError::Forbidden && forall|i: int|
                            0 <= i < old(self)@.len() && old(self)@[i].id == id ==> old(
                                self,
                            )@[i].user_id != user_id
                    }
                },
            },
            r is Ok <==> (spec_has_session_id(old(self)@, id) && forall|i: int|
                0 <= i < old(self)@.len() && old(self)@[i].id == id ==> old(self)@[i].user_id
                    == user_id),
    {
        let i = match self.index_of_id(id) {
            Some(i) => i,
            None => {
                return Err(AuthError::NotFound);
            },
        };
        let ghost s = self@;
        proof {
            lemma_sole_session_index(s, i as int, id);
        }
        if self.sessions[i].user_id != user_id {
            return Err(AuthError::Forbidden);
        }
        proof {
            lemma_session_remove_keeps_wf(s, i as int, self.next_id);
        }
        self.sessions.remove(i);
        Ok(())
    }
}

/// In a store with unique ids, `i` is the one slot whose id is `id`.
proof fn lemma_sole_session_index(s: Seq<Session>, i: int, id: u64)
    requires
        session_ids_unique(s),
        0 <= i < s.len(),
        s[i].id == id,
    ensures
        forall|j: int| 0 <= j < s.len() && s[j].id == id ==> j == i,
{
    assert forall|j: int| 0 <= j < s.len() && s[j].id == id implies j == i by {
        if j < i {
            assert(s[j].id != s[i].id);
        } else if i < j {
            assert(s[i].id != s[j].id);
        }
    }
}

/// Appending a fresh id and an untaken token keeps the store's invariant.
proof fn lemma_session_push_keeps_wf(s: Seq<Session>, x: Session, n: u64)
    requires
        session_ids_unique(s),
        tokens_unique(s),
        session_ids_below(s, n),
        !spec_has_token(s, x.session_token@),
        x.id == n,
        n < u64::MAX,
    ensures
        session_ids_unique(s.push(x)),
        tokens_unique(s.push(x)),
        session_ids_below(s.push(x), (n + 1) as u64),
{
    let t = s.push(x);
    assert forall|i: int, j: int| 0 <= i < j < t.len() implies t[i].id != t[j].id by {
        if j == s.len() {
            assert(s[i].id < n);
        }
    }
    assert forall|i: int, j: int| 0 <= i < j < t.len() implies t[i].session_token@
        != t[j].session_token@ by {
        if j == s.len() {
            if s[i].session_token@ == x.session_token@ {
                assert(spec_has_token(s, x.session_token@));
            }
        }
    }
}

/// Dropping a slot keeps the store's invariant.
proof fn lemma_session_remove_keeps_wf(s: Seq<Session>, i: int, n: u64)
    requires
        session_ids_unique(s),
        tokens_unique(s),
        session_ids_below(s, n),
        0 <= i < s.len(),
    ensures
        session_ids_unique(s.remove(i)),
        tokens_unique(s.remove(i)),
        session_ids_below(s.remove(i), n),
{
    s.remove_ensures(i);
    let t = s.remove(i);
    assert forall|k: int, l: int| 0 <= k < l < t.len() implies t[k].id != t[l].id by {
        let k0 = if k < i { k } else { k + 1 };
        let l0 = if l < i { l } else { l + 1 };
        assert(t[k] == s[k0]);
        assert(t[l] == s[l0]);
        assert(s[k0].id != s[l0].id);
    }
    assert forall|k: int, l: int| 0 <= k < l < t.len() implies t[k].session_token@
        != t[l].session_token@ by {
        let k0 = if k < i { k } else { k + 1 };
        let l0 = if l < i { l } else { l + 1 };
        assert(t[k] == s[k0]);
        assert(t[l] == s[l0]);
        assert(s[k0].session_token@ != s[l0].session_token@);
    }
    assert forall|k: int| 0 <= k < t.len() implies t[k].id < n by {
        let k0 = if k < i { k } else { k + 1 };
        assert(t[k] == s[k0]);
    }
}

} // verus!
