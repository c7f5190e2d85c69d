//! Accounts and the account store.
//!
//! The store enforces, as a machine-checked invariant, that account ids and
//! normalised emails are unique across all accounts at all times; every write
//! re-establishes it or fails without touching the store.

use vstd::prelude::*;

use crate::errors::AuthError;
use crate::verification::Verification;

verus! {

/// A registered user identity.
#[derive(Debug)]
pub struct Account {
    /// Opaque unique identifier, assigned at creation, immutable.
    pub id: u64,
    /// The email as the user supplied it.
    pub email: String,
    /// The canonical form of `email`, the one uniqueness is judged by.
    /// Normalisation is case folding alone: addresses carrying whitespace
    /// are malformed and rejected by the request layer before they reach
    /// the core.
    pub email_normalised: String,
    /// The credential hasher's artifact; never a plaintext password.
    pub password_hash: String,
    /// Where the account stands in the email-verification lifecycle.
    pub verification: Verification,
}

impl Clone for Account {
    fn clone(&self) -> (r: Self)
        ensures
            r == *self,
    {
        Account {
            id: self.id,
            email: self.email.clone(),
            email_normalised: self.email_normalised.clone(),
            password_hash: self.password_hash.clone(),
            verification: self.verification.clone(),
        }
    }
}

/// True when some account in `s` holds `e` as its normalised email.
pub open spec fn spec_has_email(s: Seq<Account>, e: Seq<char>) -> bool {
    exists|i: int| 0 <= i < s.len() && s[i].email_normalised@ == e
}

/// True when some account in `s` other than the one at `skip` holds `e` as
/// its normalised email.
pub open spec fn email_taken_by_other(s: Seq<Account>, skip: int, e: Seq<char>) -> bool {
    exists|j: int| 0 <= j < s.len() && j != skip && s[j].email_normalised@ == e
}

/// True when some account in `s` has id `id`.
pub open spec fn spec_has_account_id(s: Seq<Account>, id: u64) -> bool {
    exists|i: int| 0 <= i < s.len() && s[i].id == id
}

/// No two accounts hold the same normalised email.
pub open spec fn emails_unique(s: Seq<Account>) -> bool {
    forall|i: int, j: int|
        0 <= i < j < s.len() ==> s[i].email_normalised@ != s[j].email_normalised@
}

/// No two accounts hold the same id.
pub open spec fn account_ids_unique(s: Seq<Account>) -> bool {
    forall|i: int, j: int| 0 <= i < j < s.len() ==> s[i].id != s[j].id
}

/// Every account id lies below the store's id counter.
pub open spec fn account_ids_below(s: Seq<Account>, n: u64) -> bool {
    forall|i: int| 0 <= i < s.len() ==> s[i].id < n
}

/// The account store: all durable account state, behind compare-and-set
/// style operations that keep ids and normalised emails unique.
pub struct AccountStore {
    /// The next id to assign; every stored id lies below it.
    pub next_id: u64,
    pub accounts: Vec<Account>,
}

impl View for AccountStore {
    type V = Seq<Account>;

    open spec fn view(&self) -> Seq<Account> {
        self.accounts@
    }
}

/// Law: in a well-formed store no two accounts ever hold the same normalised
/// email; any two distinct slots disagree on it.
pub proof fn lemma_no_duplicate_normalised_email(store: AccountStore, i: int, j: int)
    requires
        store.wf(),
        0 <= i < store@.len(),
        0 <= j < store@.len(),
        i != j,
    ensures
        store@[i].email_normalised@ != store@[j].email_normalised@,
{
}

impl AccountStore {
    /// The store's invariant: unique ids, unique normalised emails, and ids
    /// exhausted in order.
    pub open spec fn wf(&self) -> bool {
        &&& emails_unique(self@)
        &&& account_ids_unique(self@)
        &&& account_ids_below(self@, self.next_id)
    }

    /// An empty store.
    pub fn new() -> (r: AccountStore)
        ensures
            r.wf(),
            r@ =~= Seq::<Account>::empty(),
            r.next_id == 0,
    {
        AccountStore { next_id: 0, accounts: Vec::new() }
    }

    /// The slot holding the account with id `id`, if any.
    fn index_of_id(&self, id: u64) -> (r: Option<usize>)
        ensures
            match r {
                Some(i) => i < self@.len() && self@[i as int].id == id,
                None => !spec_has_account_id(self@, id),
            },
    {
        let n = self.accounts.len();
        for i in 0..n
            invariant
                n == self@.len(),
                forall|k: int| 0 <= k < i ==> self@[k].id != id,
        {
            if self.accounts[i].id == id {
                return Some(i);
            }
        }
        None
    }

    /// The slot holding the account whose normalised email is `e`, if any.
    fn index_of_email(&self, e: &String) -> (r: Option<usize>)
        ensures
            match r {
                Some(i) => i < self@.len() && self@[i as int].email_normalised@ == e@,
                None => !spec_has_email(self@, e@),
            },
    {
        let n = self.accounts.len();
        for i in 0..n
            invariant
                n == self@.len(),
                forall|k: int| 0 <= k < i ==> self@[k].email_normalised@ != e@,
        {
            if self.accounts[i].email_normalised == *e {
                return Some(i);
            }
        }
        None
    }

    /// True when an account other than the one at `skip` holds `e` as its
    /// normalised email.
    fn email_taken_excluding(&self, e: &String, skip: usize) -> (r: bool)
        ensures
            r == email_taken_by_other(self@, skip as int, e@),
    {
        let n = self.accounts.len();
        for j in 0..n
            invariant
                n == self@.len(),
                forall|k: int| 0 <= k < j ==> k != skip ==> self@[k].email_normalised@ != e@,
        {
            if j != skip && self.accounts[j].email_normalised == *e {
                return true;
            }
        }
        false
    }

    /// A copy of the account with id `id`, if any.
    pub fn find_by_id(&self, id: u64) -> (r: Option<Account>)
        ensures
            match r {
                Some(a) => a.id == id && exists|i: int| 0 <= i < self@.len() && self@[i] == a,
                None => !spec_has_account_id(self@, id),
            },
    {
        match self.index_of_id(id) {
            Some(i) => Some(self.accounts[i].clone()),
            None => None,
        }
    }

    /// A copy of the account whose normalised email is `e`, if any.
    pub fn find_by_normalized_email(&self, e: &String) -> (r: Option<Account>)
        ensures
            match r {
                Some(a) => a.email_normalised@ == e@ && exists|i: int|
                    0 <= i < self@.len() && self@[i] == a,
                None => !spec_has_email(self@, e@),
            },
    {
        match self.index_of_email(e) {
            Some(i) => Some(self.accounts[i].clone()),
            None => None,
        }
    }

    /// Persists a new account built from an already normalised email and an
    /// already hashed password.  Fails with `DuplicateEmail`, and writes
    /// nothing, when any account already claims `normalised`; the check and
    /// the insert are one atomic step of the store.
    pub fn create(
        &mut self,
        email: String,
        normalised: String,
        password_hash: String,
        verification: Verification,
    ) -> (r: Result<Account, AuthError>)
        requires
            old(self).wf(),
        ensures
            final(self).wf(),
            match r {
                Ok(a) => {
                    &&& !spec_has_email(old(self)@, normalised@)
                    &&& old(self).next_id < u64::MAX
                    &&& a == (Account {
                        id: old(self).next_id,
                        email,
                        email_normalised: normalised,
                        password_hash,
                        verification,
                    })
                    &&& final(self)@ == old(self)@.push(a)
                    &&& final(self).next_id == old(self).next_id + 1
                },
                Err(e) => {
                    &&& *final(self) == *old(self)
                    &&& if spec_has_email(old(self)@, normalised@) {
                        e == AuthError::DuplicateEmail
                    } else {
                        e == AuthError::StoreUnavailable && old(self).next_id == u64::MAX
                    }
                },
            },
    {
        match self.index_of_email(&normalised) {
            Some(_) => {
                return Err(AuthError::DuplicateEmail);
            },
            None => {},
        }
        if self.next_id == u64::MAX {
            return Err(AuthError::StoreUnavailable);
        }
        let account = Account {
            id: self.next_id,
            email,
            email_normalised: normalised,
            password_hash,
            verification,
        };
        let result = account.clone();
        proof {
            lemma_push_keeps_wf(self@, account, self.next_id);
        }
        self.accounts.push(account);
        self.next_id = self.next_id + 1;
        Ok(result)
    }

    /// Atomically replaces the verification state of the account with id
    /// `id`; the email fields stay as they are.
    pub fn update_verification(&mut self, id: u64, v: Verification) -> (r: Result<(), AuthError>)
        requires
            old(self).wf(),
        ensures
            final(self).wf(),
            final(self).next_id == old(self).next_id,
            r is Ok <==> spec_has_account_id(old(self)@, id),
            match r {
                Ok(_) => forall|i: int|
                    0 <= i < old(self)@.len() && old(self)@[i].id == id ==> final(self)@
                        == old(self)@.update(i, (Account { verification: v, ..old(self)@[i] })),
                Err(e) => e == AuthError::NotFound && *final(self) == *old(self),
            },
    {
        let i = match self.index_of_id(id) {
            Some(i) => i,
            None => {
                return Err(AuthError::NotFound);
            },
        };
        let ghost s = self@;
        let mut account = self.accounts.remove(i);
        account.verification = v;
        proof {
            lemma_update_keeps_wf(s, i as int, account, self.next_id);
        }
        self.accounts.insert(i, account);
        proof {
            assert(self@ =~= s.update(i as int, (Account { verification: v, ..s[i as int] })));
            lemma_sole_account_index(s, i as int, id);
        }
        Ok(())
    }

    /// Atomically replaces the stored credential hash of the account with id
    /// `id`.
    pub fn update_password(&mut self, id: u64, new_password_hash: String) -> (r: Result<
        (),
        AuthError,
    >)
        requires
            old(self).wf(),
        ensures
            final(self).wf(),
            final(self).next_id == old(self).next_id,
            r is Ok <==> spec_has_account_id(old(self)@, id),
            match r {
                Ok(_) => forall|i: int|
                    0 <= i < old(self)@.len() && old(self)@[i].id == id ==> final(self)@
                        == old(self)@.update(
                        i,
                        (Account { password_hash: new_password_hash, ..old(self)@[i] }),
                    ),
                Err(e) => e == AuthError::NotFound && *final(self) == *old(self),
            },
    {
        let i = match self.index_of_id(id) {
            Some(i) => i,
            None => {
                return Err(AuthError::NotFound);
            },
        };
        let ghost s = self@;
        let mut account = self.accounts.remove(i);
        account.password_hash = new_password_hash;
        proof {
            lemma_update_keeps_wf(s, i as int, account, self.next_id);
        }
        self.accounts.insert(i, account);
        proof {
            assert(self@ =~= s.update(
                i as int,
                (Account { password_hash: account.password_hash, ..s[i as int] }),
            ));
            lemma_sole_account_index(s, i as int, id);
        }
        Ok(())
    }

    /// Commits a confirmed email change of the account with id `id`: the
    /// email fields are replaced and the state becomes `Verified`, in one
    /// atomic step that re-checks the uniqueness of `normalised` against all
    /// other accounts — another account may have claimed it since the change
    /// was requested, and then nothing is overwritten.
    pub fn commit_email(&mut self, id: u64, new_email: String, normalised: String) -> (r: Result<
        (),
        AuthError,
    >)
        requires
            old(self).wf(),
        ensures
            final(self).wf(),
            final(self).next_id == old(self).next_id,
            match r {
                Ok(_) => forall|i: int|
                    0 <= i < old(self)@.len() && old(self)@[i].id == id ==> {
                        &&& !email_taken_by_other(old(self)@, i, normalised@)
                        &&& final(self)@ == old(self)@.update(
                            i,
                            (Account {
                                email: new_email,
                                email_normalised: normalised,
                                verification: Verification::Verified,
                                ..old(self)@[i]
                            }),
                        )
                    },
                Err(e) => {
                    &&& *final(self) == *old(self)
                    &&& if !spec_has_account_id(old(self)@, id) {
                        e == AuthError::NotFound
                    } else {
                        e == AuthError::DuplicateEmail && forall|i: int|
                            0 <= i < old(self)@.len() && old(self)@[i].id == id
                                ==> email_taken_by_other(old(self)@, i, normalised@)
                    }
                },
            },
            r is Ok <==> (spec_has_account_id(old(self)@, id) && forall|i: int|
                0 <= i < old(self)@.len() && old(self)@[i].id == id ==> !email_taken_by_other(
                    old(self)@,
                    i,
                    normalised@,
                )),
    {
        let i = match self.index_of_id(id) {
            Some(i) => i,
            None => {
                return Err(AuthError::NotFound);
            },
        };
        proof {
            lemma_sole_account_index(self@, i as int, id);
        }
        if self.email_taken_excluding(&normalised, i) {
            return Err(AuthError::DuplicateEmail);
        }
        let ghost s = self@;
        let mut account = self.accounts.remove(i);
        account.email = new_email;
        account.email_normalised = normalised;
        account.verification = Verification::Verified;
        proof {
            lemma_update_email_keeps_wf(s, i as int, account, self.next_id);
        }
        self.accounts.insert(i, account);
        proof {
            assert(self@ =~= s.update(
                i as int,
                (Account {
                    email: account.email,
                    email_normalised: account.email_normalised,
                    verification: Verification::Verified,
                    ..s[i as int]
                }),
            ));
        }
        Ok(())
    }

    /// Scans for the account whose pending verification token is `code`.
    /// The slot is returned only when exactly one account matches; zero or
    /// several matches are no answer, so the caller treats the token as
    /// invalid.
    pub fn find_sole_token_match(&self, code: &String) -> (r: Option<usize>)
        ensures
            match r {
                Some(i) => i < self@.len() && token_matches(self@[i as int], code@)
                    && count_token_matches(self@, code@) == 1,
                None => count_token_matches(self@, code@) != 1,
            },
    {
        let ghost s = self@;
        let n = self.accounts.len();
        let mut count: usize = 0;
        let mut found: usize = 0;
        for i in 0..n
            invariant
                n == s.len(),
                s == self@,
                count <= i,
                count as nat == count_token_matches(s.take(i as int), code@),
                count > 0 ==> found < i && token_matches(s[found as int], code@),
        {
            let matched = match &self.accounts[i].verification {
                Verification::Unverified { token } => *token == *code,
                Verification::Verified => false,
                Verification::Moving { token, .. } => *token == *code,
            };
            proof {
                assert(matched == token_matches(s[i as int], code@));
                assert(s.take(i + 1).drop_last() =~= s.take(i as int));
                assert(s.take(i + 1).last() == s[i as int]);
            }
            if matched {
                count = count + 1;
                found = i;
            }
        }
        proof {
            assert(s.take(n as int) =~= s);
        }
        if count == 1 {
            Some(found)
        } else {
            None
        }
    }
}

/// True when `code` is exactly the pending verification token of `a`.
pub open spec fn token_matches(a: Account, code: Seq<char>) -> bool {
    a.verification.pending_token() == Some(code)
}

/// How many accounts in `s` hold `code` as their pending token.
pub open spec fn count_token_matches(s: Seq<Account>, code: Seq<char>) -> nat
    decreases s.len(),
{
    if s.len() == 0 {
        0
    } else {
        count_token_matches(s.drop_last(), code) + if token_matches(s.last(), code) {
            1nat
        } else {
            0nat
        }
    }
}

/// A slot that matches puts the count at one or more.
pub proof fn lemma_count_at_least_one(s: Seq<Account>, code: Seq<char>, i: int)
    requires
        0 <= i < s.len(),
        token_matches(s[i], code),
    ensures
        count_token_matches(s, code) >= 1,
    decreases s.len(),
{
    if i == s.len() - 1 {
    } else {
        assert(s.drop_last()[i] == s[i]);
        lemma_count_at_least_one(s.drop_last(), code, i);
    }
}

/// Two distinct matching slots put the count at two or more.
pub proof fn lemma_count_at_least_two(s: Seq<Account>, code: Seq<char>, i: int, j: int)
    requires
        0 <= i < j < s.len(),
        token_matches(s[i], code),
        token_matches(s[j], code),
    ensures
        count_token_matches(s, code) >= 2,
    decreases s.len(),
{
    if j == s.len() - 1 {
        assert(s.drop_last()[i] == s[i]);
        lemma_count_at_least_one(s.drop_last(), code, i);
    } else {
        assert(s.drop_last()[i] == s[i]);
        assert(s.drop_last()[j] == s[j]);
        lemma_count_at_least_two(s.drop_last(), code, i, j);
    }
}

/// When the count is one, any two matching slots coincide.
pub proof fn lemma_sole_token_match(s: Seq<Account>, code: Seq<char>, i: int, j: int)
    requires
        count_token_matches(s, code) <= 1,
        0 <= i < s.len(),
        0 <= j < s.len(),
        token_matches(s[i], code),
        token_matches(s[j], code),
    ensures
        i == j,
{
    if i < j {
        lemma_count_at_least_two(s, code, i, j);
    } else if j < i {
        lemma_count_at_least_two(s, code, j, i);
    }
}

/// Law: once any account holds a normalised email, every other account's
/// pending move to that address is blocked — `commit_email`'s contract then
/// forces `DuplicateEmail` for it, so of a creation and an email change
/// racing on one address at most one can win.
pub proof fn lemma_claimed_email_blocks_commit(s: Seq<Account>, i: int, k: int, e: Seq<char>)
    requires
        0 <= i < s.len(),
        0 <= k < s.len(),
        i != k,
        s[k].email_normalised@ == e,
    ensures
        email_taken_by_other(s, i, e),
{
}

/// In a store with unique normalised emails, two slots carrying the same
/// normalised email coincide.
pub proof fn lemma_sole_email_index(s: Seq<Account>, i: int, j: int)
    requires
        emails_unique(s),
        0 <= i < s.len(),
        0 <= j < s.len(),
        s[i].email_normalised@ == s[j].email_normalised@,
    ensures
        i == j,
{
    if i < j {
        assert(s[i].email_normalised@ != s[j].email_normalised@);
    } else if j < i {
        assert(s[j].email_normalised@ != s[i].email_normalised@);
    }
}

/// In a store with unique ids, `i` is the one slot whose id is `id`.
pub proof fn lemma_sole_account_index(s: Seq<Account>, i: int, id: u64)
    requires
        account_ids_unique(s),
        0 <= i < s.len(),
        s[i].id == id,
    ensures
        forall|j: int| 0 <= j < s.len() && s[j].id == id ==> j == i,
{
    assert forall|j: int| 0 <= j < s.len() && s[j].id == id implies j == i by {
        if j < i {
            assert(s[j].id != s[i].id);
        } else if i < j {
            assert(s[i].id != s[j].id);
        }
    }
}

/// Appending a fresh id and an unclaimed normalised email keeps the store's
/// invariant.
proof fn lemma_push_keeps_wf(s: Seq<Account>, a: Account, n: u64)
    requires
        emails_unique(s),
        account_ids_unique(s),
        account_ids_below(s, n),
        !spec_has_email(s, a.email_normalised@),
        a.id == n,
        n < u64::MAX,
    ensures
        emails_unique(s.push(a)),
        account_ids_unique(s.push(a)),
        account_ids_below(s.push(a), (n + 1) as u64),
{
    let t = s.push(a);
    assert forall|i: int, j: int| 0 <= i < j < t.len() implies t[i].email_normalised@
        != t[j].email_normalised@ by {
        if j == s.len() {
            if s[i].email_normalised@ == a.email_normalised@ {
                assert(spec_has_email(s, a.email_normalised@));
            }
        }
    }
    assert forall|i: int, j: int| 0 <= i < j < t.len() implies t[i].id != t[j].id by {
        if j == s.len() {
            assert(s[i].id < n);
        }
    }
}

/// Replacing the account at `i` without touching its id or its normalised
/// email keeps the store's invariant.
proof fn lemma_update_keeps_wf(s: Seq<Account>, i: int, a: Account, n: u64)
    requires
        emails_unique(s),
        account_ids_unique(s),
        account_ids_below(s, n),
        0 <= i < s.len(),
        a.id == s[i].id,
        a.email_normalised@ == s[i].email_normalised@,
    ensures
        emails_unique(s.update(i, a)),
        account_ids_unique(s.update(i, a)),
        account_ids_below(s.update(i, a), n),
{
    let t = s.update(i, a);
    assert forall|k: int, l: int| 0 <= k < l < t.len() implies t[k].email_normalised@
        != t[l].email_normalised@ by {
        assert(s[k].email_normalised@ != s[l].email_normalised@);
    }
    assert forall|k: int, l: int| 0 <= k < l < t.len() implies t[k].id != t[l].id by {
        assert(s[k].id != s[l].id);
    }
}

/// Replacing the account at `i` with one whose normalised email no other
/// account claims keeps the store's invariant, whatever its id was before,
/// as long as the id is kept.
proof fn lemma_update_email_keeps_wf(s: Seq<Account>, i: int, a: Account, n: u64)
    requires
        emails_unique(s),
        account_ids_unique(s),
        account_ids_below(s, n),
        0 <= i < s.len(),
        a.id == s[i].id,
        !email_taken_by_other(s, i, a.email_normalised@),
    ensures
        emails_unique(s.update(i, a)),
        account_ids_unique(s.update(i, a)),
        account_ids_below(s.update(i, a), n),
{
    let t = s.update(i, a);
    assert forall|k: int, l: int| 0 <= k < l < t.len() implies t[k].email_normalised@
        != t[l].email_normalised@ by {
        if k == i {
            if s[l].email_normalised@ == a.email_normalised@ {
                assert(email_taken_by_other(s, i, a.email_normalised@));
            }
        } else if l == i {
            if s[k].email_normalised@ == a.email_normalised@ {
                assert(email_taken_by_other(s, i, a.email_normalised@));
            }
        } else {
            assert(s[k].email_normalised@ != s[l].email_normalised@);
        }
    }
    assert forall|k: int, l: int| 0 <= k < l < t.len() implies t[k].id != t[l].id by {
        assert(s[k].id != s[l].id);
    }
}

} // verus!
