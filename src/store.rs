//! The record store that the core reads and writes: users, their credentials, accounts with
//! the ownership records that link them to users, transactions owned through their account,
//! and causals and details with an optional owner.
use vstd::prelude::*;
use crate::credential::{Auth, AuthView};
use crate::ownership::{
    check_both, check_membership, check_owner, check_through_parent, direct_gate, membership_gate,
    Action, GateError, SharedPolicy,
};
use crate::user::{User, UserView};

verus! {

/// Why a write was refused.
#[derive(Debug, Clone, Copy, PartialEq, Eq, Structural)]
pub enum StoreError {
    /// A record with that key already exists.
    DuplicateKey,
    /// Another credential already uses that email.
    EmailTaken,
    /// The user that the record refers to does not exist.
    UnknownUser,
    /// The account that the record refers to does not exist.
    UnknownAccount,
}

/// The contents of a store as plain values.
pub struct StoreView {
    pub users: Seq<UserView>,
    pub credentials: Seq<AuthView>,
    pub accounts: Seq<i64>,
    /// Ownership records, as (account, user).
    pub account_users: Seq<(i64, i64)>,
    /// Causals, as (identifier, owner); no owner means a shared causal.
    pub causals: Seq<(i64, Option<i64>)>,
    /// Transactions, as (identifier, account).
    pub transactions: Seq<(i64, i64)>,
    /// Details, as (identifier, owner); no owner means a detail open to everybody.
    pub details: Seq<(i64, Option<i64>)>,
}

impl StoreView {
    pub open spec fn has_user(self, id: i64) -> bool {
        exists|i: int| 0 <= i < self.users.len() && #[trigger] self.users[i].id == id
    }

    pub open spec fn user(self, id: i64) -> UserView {
        self.users[choose|i: int| 0 <= i < self.users.len() && #[trigger] self.users[i].id == id]
    }

    pub open spec fn has_credential(self, id: i64) -> bool {
        exists|i: int| 0 <= i < self.credentials.len() && #[trigger] self.credentials[i].id == id
    }

    pub open spec fn credential(self, id: i64) -> AuthView {
        self.credentials[choose|i: int|
            0 <= i < self.credentials.len() && #[trigger] self.credentials[i].id == id]
    }

    pub open spec fn email_taken(self, email: Seq<char>) -> bool {
        exists|i: int|
            0 <= i < self.credentials.len() && #[trigger] self.credentials[i].email == email
    }

    pub open spec fn credential_by_email(self, email: Seq<char>) -> AuthView {
        self.credentials[choose|i: int|
            0 <= i < self.credentials.len() && #[trigger] self.credentials[i].email == email]
    }

    pub open spec fn has_account(self, id: i64) -> bool {
        self.accounts.contains(id)
    }

    pub open spec fn is_linked(self, account: i64, user: i64) -> bool {
        self.account_users.contains((account, user))
    }

    pub open spec fn has_causal(self, id: i64) -> bool {
        exists|i: int| 0 <= i < self.causals.len() && #[trigger] self.causals[i].0 == id
    }

    /// The owner of causal `id`; `None` when there is no such causal.
    pub open spec fn causal_owner(self, id: i64) -> Option<Option<i64>> {
        if self.has_causal(id) {
            Some(
                self.causals[choose|i: int|
                    0 <= i < self.causals.len() && #[trigger] self.causals[i].0 == id].1,
            )
        } else {
            None
        }
    }

    pub open spec fn has_transaction(self, id: i64) -> bool {
        exists|i: int| 0 <= i < self.transactions.len() && #[trigger] self.transactions[i].0 == id
    }

    /// The account of transaction `id`; `None` when there is no such transaction.
    pub open spec fn transaction_account(self, id: i64) -> Option<i64> {
        if self.has_transaction(id) {
            Some(
                self.transactions[choose|i: int|
                    0 <= i < self.transactions.len() && #[trigger] self.transactions[i].0 == id].1,
            )
        } else {
            None
        }
    }

    pub open spec fn has_detail(self, id: i64) -> bool {
        exists|i: int| 0 <= i < self.details.len() && #[trigger] self.details[i].0 == id
    }

    /// The owner of detail `id`; `None` when there is no such detail.
    pub open spec fn detail_owner(self, id: i64) -> Option<Option<i64>> {
        if self.has_detail(id) {
            Some(
                self.details[choose|i: int|
                    0 <= i < self.details.len() && #[trigger] self.details[i].0 == id].1,
            )
        } else {
            None
        }
    }

    /// The ownership check's answer for user `identity` on transaction `id`: the transaction
    /// must exist, and any refusal on its account is `Forbidden`.
    pub open spec fn transaction_gate(self, identity: i64, id: i64) -> Result<(), GateError> {
        match self.transaction_account(id) {
            None => Err(GateError::NotFound),
            Some(a) => if self.account_gate(identity, a) is Ok {
                Ok(())
            } else {
                Err(GateError::Forbidden)
            },
        }
    }

    /// The ownership check's answer for user `identity` doing `action` on detail `id`: a
    /// detail without owner is open to everybody.
    pub open spec fn detail_gate(self, identity: i64, id: i64, action: Action) -> Result<
        (),
        GateError,
    > {
        direct_gate(identity, self.detail_owner(id), action, SharedPolicy::Open)
    }

    /// The ownership check's answer for the link between transaction `transaction` and detail
    /// `detail`: both must pass, and the transaction is checked first.
    pub open spec fn transaction_detail_gate(
        self,
        identity: i64,
        transaction: i64,
        detail: i64,
        action: Action,
    ) -> Result<(), GateError> {
        match self.transaction_gate(identity, transaction) {
            Err(e) => Err(e),
            Ok(()) => self.detail_gate(identity, detail, action),
        }
    }

    /// The ownership check's answer for user `identity` on account `account`.
    pub open spec fn account_gate(self, identity: i64, account: i64) -> Result<(), GateError> {
        membership_gate(self.has_account(account), self.is_linked(account, identity))
    }

    /// The ownership check's answer for user `identity` doing `action` on causal `id`: a shared causal
    /// may be read by everybody and changed by nobody.
    pub open spec fn causal_gate(self, identity: i64, id: i64, action: Action) -> Result<
        (),
        GateError,
    > {
        direct_gate(identity, self.causal_owner(id), action, SharedPolicy::ReadOnly)
    }

    pub open spec fn credential_index(self, id: i64) -> int {
        choose|i: int| 0 <= i < self.credentials.len() && #[trigger] self.credentials[i].id == id
    }

    pub open spec fn with_user(self, u: UserView) -> StoreView {
        StoreView { users: self.users.push(u), ..self }
    }

    pub open spec fn with_credential(self, a: AuthView) -> StoreView {
        StoreView { credentials: self.credentials.push(a), ..self }
    }

    /// The store after account `account` was written together with its ownership record for
    /// `owner`.
    pub open spec fn with_account(self, account: i64, owner: i64) -> StoreView {
        StoreView {
            accounts: self.accounts.push(account),
            account_users: self.account_users.push((account, owner)),
            ..self
        }
    }

    pub open spec fn with_owner(self, account: i64, user: i64) -> StoreView {
        StoreView { account_users: self.account_users.push((account, user)), ..self }
    }

    pub open spec fn with_causal(self, id: i64, owner: Option<i64>) -> StoreView {
        StoreView { causals: self.causals.push((id, owner)), ..self }
    }

    pub open spec fn with_transaction(self, id: i64, account: i64) -> StoreView {
        StoreView { transactions: self.transactions.push((id, account)), ..self }
    }

    pub open spec fn with_detail(self, id: i64, owner: Option<i64>) -> StoreView {
        StoreView { details: self.details.push((id, owner)), ..self }
    }

    /// Keys are unique in every table, every credential belongs to a user, emails are unique,
    /// and every ownership record names an existing account.
    pub open spec fn wf(self) -> bool {
        &&& forall|i: int, j: int|
            0 <= i < self.users.len() && 0 <= j < self.users.len() && #[trigger] self.users[i].id
                == #[trigger] self.users[j].id ==> i == j
        &&& forall|i: int, j: int|
            0 <= i < self.credentials.len() && 0 <= j < self.credentials.len()
                && #[trigger] self.credentials[i].id == #[trigger] self.credentials[j].id ==> i == j
        &&& forall|i: int, j: int|
            0 <= i < self.credentials.len() && 0 <= j < self.credentials.len()
                && #[trigger] self.credentials[i].email == #[trigger] self.credentials[j].email
                ==> i == j
        &&& forall|i: int|
            0 <= i < self.credentials.len() ==> self.has_user(#[trigger] self.credentials[i].id)
        &&& forall|i: int, j: int|
            0 <= i < self.accounts.len() && 0 <= j < self.accounts.len() && #[trigger] self.accounts[i]
                == #[trigger] self.accounts[j] ==> i == j
        &&& forall|i: int|
            0 <= i < self.account_users.len() ==> self.has_account(
                #[trigger] self.account_users[i].0,
            )
        &&& forall|i: int, j: int|
            0 <= i < self.causals.len() && 0 <= j < self.causals.len() && #[trigger] self.causals[i].0
                == #[trigger] self.causals[j].0 ==> i == j
        &&& forall|i: int, j: int|
            0 <= i < self.transactions.len() && 0 <= j < self.transactions.len()
                && #[trigger] self.transactions[i].0 == #[trigger] self.transactions[j].0 ==> i == j
        &&& forall|i: int, j: int|
            0 <= i < self.details.len() && 0 <= j < self.details.len() && #[trigger] self.details[i].0
                == #[trigger] self.details[j].0 ==> i == j
    }
}

/// An in-memory store.
pub struct Store {
    users: Vec<User>,
    credentials: Vec<Auth>,
    accounts: Vec<i64>,
    account_users: Vec<(i64, i64)>,
    causals: Vec<(i64, Option<i64>)>,
    transactions: Vec<(i64, i64)>,
    details: Vec<(i64, Option<i64>)>,
}

impl View for Store {
    type V = StoreView;

    closed spec fn view(&self) -> StoreView {
        StoreView {
            users: self.users@.map_values(|u: User| u@),
            credentials: self.credentials@.map_values(|a: Auth| a@),
            accounts: self.accounts@,
            account_users: self.account_users@,
            causals: self.causals@,
            transactions: self.transactions@,
            details: self.details@,
        }
    }
}

impl Store {
    /// An empty store.
    pub fn new() -> (r: Store)
        ensures
            r@.wf(),
            r@.users.len() == 0,
            r@.credentials.len() == 0,
            r@.accounts.len() == 0,
            r@.account_users.len() == 0,
            r@.causals.len() == 0,
            r@.transactions.len() == 0,
            r@.details.len() == 0,
    {
        Store {
            users: Vec::new(),
            credentials: Vec::new(),
            accounts: Vec::new(),
            account_users: Vec::new(),
            causals: Vec::new(),
            transactions: Vec::new(),
            details: Vec::new(),
        }
    }

    fn find_user(&self, id: i64) -> (r: Option<usize>)
        ensures
            match r {
                Some(i) => i < self@.users.len() && self@.users[i as int].id == id,
                None => !self@.has_user(id),
            },
    {
        let mut i: usize = 0;
        while i < self.users.len()
            invariant
                i <= self.users@.len(),
                forall|k: int| 0 <= k < i ==> self@.users[k].id != id,
            decreases self.users.len() - i,
        {
            if self.users[i].id == id {
                return Some(i);
            }
            i = i + 1;
        }
        None
    }

    fn find_credential(&self, id: i64) -> (r: Option<usize>)
        ensures
            match r {
                Some(i) => i < self@.credentials.len() && self@.credentials[i as int].id == id,
                None => !self@.has_credential(id),
            },
    {
        let mut i: usize = 0;
        while i < self.credentials.len()
            invariant
                i <= self.credentials@.len(),
                forall|k: int| 0 <= k < i ==> self@.credentials[k].id != id,
            decreases self.credentials.len() - i,
        {
            if self.credentials[i].id == id {
                return Some(i);
            }
            i = i + 1;
        }
        None
    }

    fn find_email(&self, email: &String) -> (r: Option<usize>)
        ensures
            match r {
                Some(i) => i < self@.credentials.len() && self@.credentials[i as int].email
                    == email@,
                None => !self@.email_taken(email@),
            },
    {
        let mut i: usize = 0;
        while i < self.credentials.len()
            invariant
                i <= self.credentials@.len(),
                forall|k: int| 0 <= k < i ==> self@.credentials[k].email != email@,
            decreases self.credentials.len() - i,
        {
            if self.credentials[i].email == *email {
                return Some(i);
            }
            i = i + 1;
        }
        None
    }

    fn find_account(&self, id: i64) -> (r: bool)
        ensures
            r == self@.has_account(id),
    {
        let mut i: usize = 0;
        while i < self.accounts.len()
            invariant
                i <= self.accounts@.len(),
                forall|k: int| 0 <= k < i ==> self@.accounts[k] != id,
            decreases self.accounts.len() - i,
        {
            if self.accounts[i] == id {
                proof {
                    assert(self@.accounts[i as int] == id);
                }
                return true;
            }
            i = i + 1;
        }
        false
    }

    fn account_index(&self, id: i64) -> (r: Option<usize>)
        ensures
            match r {
                Some(i) => i < self@.accounts.len() && self@.accounts[i as int] == id,
                None => !self@.has_account(id),
            },
    {
        let mut i: usize = 0;
        while i < self.accounts.len()
            invariant
                i <= self.accounts@.len(),
                forall|k: int| 0 <= k < i ==> self@.accounts[k] != id,
            decreases self.accounts.len() - i,
        {
            if self.accounts[i] == id {
                return Some(i);
            }
            i = i + 1;
        }
        None
    }

    fn find_link(&self, account: i64, user: i64) -> (r: bool)
        ensures
            r == self@.is_linked(account, user),
    {
        let mut i: usize = 0;
        while i < self.account_users.len()
            invariant
                i <= self.account_users@.len(),
                forall|k: int| 0 <= k < i ==> self@.account_users[k] != (account, user),
            decreases self.account_users.len() - i,
        {
            let (a, u) = self.account_users[i];
            if a == account && u == user {
                proof {
                    assert(self@.account_users[i as int] == (account, user));
                }
                return true;
            }
            i = i + 1;
        }
        false
    }

    fn find_causal(&self, id: i64) -> (r: Option<usize>)
        ensures
            match r {
                Some(i) => i < self@.causals.len() && self@.causals[i as int].0 == id,
                None => !self@.has_causal(id),
            },
    {
        let mut i: usize = 0;
        while i < self.causals.len()
            invariant
                i <= self.causals@.len(),
                forall|k: int| 0 <= k < i ==> self@.causals[k].0 != id,
            decreases self.causals.len() - i,
        {
            if self.causals[i].0 == id {
                return Some(i);
            }
            i = i + 1;
        }
        None
    }
}

} // verus!

verus! {

impl Store {
    /// Adds a user; refused when a user with that identifier exists.
    pub fn add_user(&mut self, user: User) -> (r: Result<(), StoreError>)
        requires
            old(self)@.wf(),
        ensures
            final(self)@.wf(),
            old(self)@.has_user(user.id) ==> r == Err::<(), StoreError>(StoreError::DuplicateKey)
                && final(self)@ == old(self)@,
            !old(self)@.has_user(user.id) ==> r is Ok && final(self)@ == old(self)@.with_user(
                user@,
            ),
    {
        if self.find_user(user.id).is_some() {
            return Err(StoreError::DuplicateKey);
        }
        let ghost before = self@;
        self.users.push(user);
        proof {
            assert(self@.users =~= before.users.push(user@));
            assert(self@ =~= before.with_user(user@));
            let after = self@;
            assert forall|i: int| 0 <= i < after.credentials.len() implies after.has_user(
                #[trigger] after.credentials[i].id,
            ) by {
                let j = choose|j: int|
                    0 <= j < before.users.len() && #[trigger] before.users[j].id
                        == before.credentials[i].id;
                assert(after.users[j].id == after.credentials[i].id);
            }
        }
        Ok(())
    }

    /// The user with identifier `id`.
    pub fn read_user(&self, id: i64) -> (r: Option<User>)
        requires
            self@.wf(),
        ensures
            r is Some <==> self@.has_user(id),
            r is Some ==> r->0@ == self@.user(id),
    {
        match self.find_user(id) {
            Some(i) => Some(self.users[i].copy_record()),
            None => None,
        }
    }

    /// Removes a user together with its credential. Returns whether the user existed.
    pub fn delete_user(&mut self, id: i64) -> (r: bool)
        requires
            old(self)@.wf(),
        ensures
            final(self)@.wf(),
            r == old(self)@.has_user(id),
            !r ==> final(self)@ == old(self)@,
            forall|u: i64| #[trigger]
                final(self)@.has_user(u) <==> (old(self)@.has_user(u) && u != id),
            forall|c: i64| #[trigger]
                final(self)@.has_credential(c) <==> (old(self)@.has_credential(c) && c != id),
            final(self)@.accounts == old(self)@.accounts,
            final(self)@.account_users == old(self)@.account_users,
            final(self)@.causals == old(self)@.causals,
            final(self)@.transactions == old(self)@.transactions,
            final(self)@.details == old(self)@.details,
    {
        let ghost before = self@;
        let i = match self.find_user(id) {
            Some(i) => i,
            None => return false,
        };
        self.users.remove(i);
        proof {
            assert(self@.users =~= before.users.remove(i as int));
        }
        let ghost mid = self@;
        match self.find_credential(id) {
            Some(c) => {
                self.credentials.remove(c);
                proof {
                    assert(self@.credentials =~= mid.credentials.remove(c as int));
                }
            },
            None => {},
        }
        proof {
            let after = self@;
            assert forall|u: i64| #[trigger]
                after.has_user(u) <==> (before.has_user(u) && u != id) by {
                if before.has_user(u) && u != id {
                    let j = choose|j: int|
                        0 <= j < before.users.len() && #[trigger] before.users[j].id == u;
                    if j < i {
                        assert(after.users[j].id == u);
                    } else {
                        assert(j != i);
                        assert(after.users[j - 1].id == u);
                    }
                }
                if after.has_user(u) {
                    let j = choose|j: int|
                        0 <= j < after.users.len() && #[trigger] after.users[j].id == u;
                    if j < i {
                        assert(before.users[j].id == u);
                    } else {
                        assert(before.users[j + 1].id == u);
                    }
                }
            }
            assert forall|c: i64| #[trigger]
                after.has_credential(c) <==> (before.has_credential(c) && c != id) by {
                if after.has_credential(c) {
                    let j = choose|j: int|
                        0 <= j < after.credentials.len() && #[trigger] after.credentials[j].id == c;
                    if mid.has_credential(id) {
                        let k = choose|k: int|
                            0 <= k < mid.credentials.len() && #[trigger] mid.credentials[k].id
                                == id;
                        assert(after.credentials.len() == before.credentials.len() - 1);
                        if j < k {
                            assert(before.credentials[j].id == c);
                        } else {
                            assert(before.credentials[j + 1].id == c);
                        }
                    } else {
                        assert(before.credentials[j].id == c);
                    }
                }
                if before.has_credential(c) && c != id {
                    let j = choose|j: int|
                        0 <= j < before.credentials.len() && #[trigger] before.credentials[j].id
                            == c;
                    if mid.has_credential(id) {
                        let k = choose|k: int|
                            0 <= k < mid.credentials.len() && #[trigger] mid.credentials[k].id
                                == id;
                        if j < k {
                            assert(after.credentials[j].id == c);
                        } else {
                            assert(j != k);
                            assert(after.credentials[j - 1].id == c);
                        }
                    } else {
                        assert(after.credentials[j].id == c);
                    }
                }
            }
            assert forall|k: int| 0 <= k < after.credentials.len() implies after.has_user(
                #[trigger] after.credentials[k].id,
            ) by {
                let c = after.credentials[k].id;
                assert(after.has_credential(c));
                assert(before.has_credential(c));
                let j = choose|j: int|
                    0 <= j < before.credentials.len() && #[trigger] before.credentials[j].id == c;
                assert(before.has_user(before.credentials[j].id));
                assert(after.has_user(c));
            }
            assert forall|a: int, b: int|
                0 <= a < after.credentials.len() && 0 <= b < after.credentials.len()
                    && #[trigger] after.credentials[a].email == #[trigger] after.credentials[b].email
                    implies a == b by {
                if mid.has_credential(id) {
                    let k = choose|k: int|
                        0 <= k < mid.credentials.len() && #[trigger] mid.credentials[k].id == id;
                    let a2 = if a < k { a } else { a + 1 };
                    let b2 = if b < k { b } else { b + 1 };
                    assert(before.credentials[a2].email == before.credentials[b2].email);
                }
            }
            assert forall|a: int, b: int|
                0 <= a < after.credentials.len() && 0 <= b < after.credentials.len()
                    && #[trigger] after.credentials[a].id == #[trigger] after.credentials[b].id
                    implies a == b by {
                if mid.has_credential(id) {
                    let k = choose|k: int|
                        0 <= k < mid.credentials.len() && #[trigger] mid.credentials[k].id == id;
                    let a2 = if a < k { a } else { a + 1 };
                    let b2 = if b < k { b } else { b + 1 };
                    assert(before.credentials[a2].id == before.credentials[b2].id);
                }
            }
            assert forall|a: int, b: int|
                0 <= a < after.users.len() && 0 <= b < after.users.len()
                    && #[trigger] after.users[a].id == #[trigger] after.users[b].id implies a
                    == b by {
                let a2 = if a < i { a } else { a + 1 };
                let b2 = if b < i { b } else { b + 1 };
                assert(before.users[a2].id == before.users[b2].id);
            }
            assert(after.accounts == before.accounts);
            assert(after.account_users == before.account_users);
            assert(after.causals == before.causals);
            assert(after.transactions == before.transactions);
            assert(after.details == before.details);
        }
        true
    }
}

} // verus!

verus! {

impl Store {
    /// Stores a credential. Refused when its user does not exist, when the user already has
    /// one, or when another credential uses the same email; a refused write changes nothing.
    pub fn create_credential(&mut self, auth: Auth) -> (r: Result<(), StoreError>)
        requires
            old(self)@.wf(),
        ensures
            final(self)@.wf(),
            !old(self)@.has_user(auth.id) ==> r == Err::<(), StoreError>(StoreError::UnknownUser),
            old(self)@.has_user(auth.id) && old(self)@.has_credential(auth.id) ==> r == Err::<
                (),
                StoreError,
            >(StoreError::DuplicateKey),
            old(self)@.has_user(auth.id) && !old(self)@.has_credential(auth.id) && old(self)@.email_taken(auth.email@) ==> r == Err::<(), StoreError>(StoreError::EmailTaken),
            r is Err ==> final(self)@ == old(self)@,
            old(self)@.has_user(auth.id) && !old(self)@.has_credential(auth.id) && !old(self)@.email_taken(auth.email@) ==> r is Ok && final(self)@ == old(self)@.with_credential(
                auth@,
            ),
    {
        if self.find_user(auth.id).is_none() {
            return Err(StoreError::UnknownUser);
        }
        if self.find_credential(auth.id).is_some() {
            return Err(StoreError::DuplicateKey);
        }
        if self.find_email(&auth.email).is_some() {
            return Err(StoreError::EmailTaken);
        }
        let ghost before = self@;
        self.credentials.push(auth);
        proof {
            assert(self@.credentials =~= before.credentials.push(auth@));
            assert(self@ =~= before.with_credential(auth@));
            let after = self@;
            assert forall|i: int| 0 <= i < after.credentials.len() implies after.has_user(
                #[trigger] after.credentials[i].id,
            ) by {
                if i < before.credentials.len() {
                    assert(before.has_user(before.credentials[i].id));
                }
            }
        }
        Ok(())
    }

    /// The credential of user `id`.
    pub fn read_credential(&self, id: i64) -> (r: Option<Auth>)
        requires
            self@.wf(),
        ensures
            r is Some <==> self@.has_credential(id),
            r is Some ==> r->0@ == self@.credential(id),
    {
        match self.find_credential(id) {
            Some(i) => Some(self.credentials[i].copy_record()),
            None => None,
        }
    }

    /// The credential registered under `email`.
    pub fn read_credential_by_email(&self, email: &str) -> (r: Option<Auth>)
        requires
            self@.wf(),
        ensures
            r is Some <==> self@.email_taken(email@),
            r is Some ==> r->0@ == self@.credential_by_email(email@),
    {
        let e = email.to_owned();
        match self.find_email(&e) {
            Some(i) => Some(self.credentials[i].copy_record()),
            None => None,
        }
    }

    /// Replaces the credential of user `id` by `form` (its owner stays `id`). Returns how many
    /// credentials changed: none when the user has no credential. Refused, with nothing
    /// changed, when another credential uses the new email.
    pub fn update_credential(&mut self, id: i64, form: Auth) -> (r: Result<usize, StoreError>)
        requires
            old(self)@.wf(),
        ensures
            final(self)@.wf(),
            !old(self)@.has_credential(id) ==> r == Ok::<usize, StoreError>(0) && final(self)@
                == old(self)@,
            old(self)@.has_credential(id) && old(self)@.email_taken(form.email@) && old(self)@.credential_by_email(form.email@).id != id ==> r == Err::<usize, StoreError>(
                StoreError::EmailTaken,
            ) && final(self)@ == old(self)@,
            r == Ok::<usize, StoreError>(1) ==> final(self)@ == (StoreView {
                credentials: old(self)@.credentials.update(
                    old(self)@.credential_index(id),
                    AuthView { id, ..form@ },
                ),
                ..old(self)@
            }),
            old(self)@.has_credential(id) ==> r is Err || r == Ok::<usize, StoreError>(1),
            r is Err ==> final(self)@ == old(self)@,
            r is Err ==> r == Err::<usize, StoreError>(StoreError::EmailTaken) && old(self)@.email_taken(form.email@) && old(self)@.credential_by_email(form.email@).id != id,
    {
        let i = match self.find_credential(id) {
            Some(i) => i,
            None => return Ok(0),
        };
        let found = self.find_email(&form.email);
        match found {
            Some(j) => if self.credentials[j].id != id {
                proof {
                    let v = self@;
                    let k = choose|k: int|
                        0 <= k < v.credentials.len() && #[trigger] v.credentials[k].email
                            == form.email@;
                    assert(v.credentials[k].email == v.credentials[j as int].email);
                }
                return Err(StoreError::EmailTaken);
            },
            None => {},
        }
        let ghost before = self@;
        let mut a = form;
        a.id = id;
        self.credentials.set(i, a);
        proof {
            assert(before.credential_index(id) == i);
            assert(self@.credentials =~= before.credentials.update(i as int, a@));
            let after = self@;
            assert forall|x: int, y: int|
                0 <= x < after.credentials.len() && 0 <= y < after.credentials.len()
                    && #[trigger] after.credentials[x].email == #[trigger] after.credentials[y].email
                    implies x == y by {
                if x != i && y != i {
                    assert(before.credentials[x].email == before.credentials[y].email);
                } else if x != y {
                    let other = if x == i { y } else { x };
                    assert(before.credentials[other].email == form@.email);
                    let j = found->0;
                    assert(before.credentials[j as int].email == form@.email);
                    assert(before.credentials[j as int].id == before.credentials[i as int].id);
                }
            }
            assert forall|x: int, y: int|
                0 <= x < after.credentials.len() && 0 <= y < after.credentials.len()
                    && #[trigger] after.credentials[x].id == #[trigger] after.credentials[y].id
                    implies x == y by {
                if x != i && y != i {
                    assert(before.credentials[x].id == before.credentials[y].id);
                } else if x == i && y != i {
                    assert(before.credentials[y].id == before.credentials[i as int].id);
                } else if y == i && x != i {
                    assert(before.credentials[x].id == before.credentials[i as int].id);
                }
            }
            assert forall|k: int| 0 <= k < after.credentials.len() implies after.has_user(
                #[trigger] after.credentials[k].id,
            ) by {
                assert(before.has_user(before.credentials[k].id));
            }
        }
        Ok(1)
    }

    /// Records a successful login of user `id` at `now`. Returns how many credentials changed.
    pub fn update_last_login(&mut self, id: i64, now: u64) -> (r: usize)
        requires
            old(self)@.wf(),
        ensures
            final(self)@.wf(),
            r == if old(self)@.has_credential(id) {
                1usize
            } else {
                0usize
            },
            r == 0 ==> final(self)@ == old(self)@,
            r == 1 ==> final(self)@ == (StoreView {
                credentials: old(self)@.credentials.update(
                    old(self)@.credential_index(id),
                    AuthView { last_login: Some(now), ..old(self)@.credential(id) },
                ),
                ..old(self)@
            }),
    {
        let i = match self.find_credential(id) {
            Some(i) => i,
            None => return 0,
        };
        let ghost before = self@;
        let mut a = self.credentials[i].copy_record();
        a.last_login = Some(now);
        self.credentials.set(i, a);
        proof {
            assert(before.credential_index(id) == i);
            assert(self@.credentials =~= before.credentials.update(i as int, a@));
            let after = self@;
            assert forall|x: int, y: int|
                0 <= x < after.credentials.len() && 0 <= y < after.credentials.len()
                    && #[trigger] after.credentials[x].email == #[trigger] after.credentials[y].email
                    implies x == y by {
                assert(before.credentials[x].email == before.credentials[y].email);
            }
            assert forall|x: int, y: int|
                0 <= x < after.credentials.len() && 0 <= y < after.credentials.len()
                    && #[trigger] after.credentials[x].id == #[trigger] after.credentials[y].id
                    implies x == y by {
                assert(before.credentials[x].id == before.credentials[y].id);
            }
            assert forall|k: int| 0 <= k < after.credentials.len() implies after.has_user(
                #[trigger] after.credentials[k].id,
            ) by {
                assert(before.has_user(before.credentials[k].id));
            }
        }
        1
    }

    /// Removes the credential of user `id`. Returns how many credentials were removed.
    pub fn delete_credential(&mut self, id: i64) -> (r: usize)
        requires
            old(self)@.wf(),
        ensures
            final(self)@.wf(),
            r == if old(self)@.has_credential(id) {
                1usize
            } else {
                0usize
            },
            r == 0 ==> final(self)@ == old(self)@,
            r == 1 ==> final(self)@ == (StoreView {
                credentials: old(self)@.credentials.remove(old(self)@.credential_index(id)),
                ..old(self)@
            }),
            !final(self)@.has_credential(id),
    {
        let i = match self.find_credential(id) {
            Some(i) => i,
            None => return 0,
        };
        let ghost before = self@;
        self.credentials.remove(i);
        proof {
            assert(before.credential_index(id) == i);
            assert(self@.credentials =~= before.credentials.remove(i as int));
            let after = self@;
            assert forall|x: int, y: int|
                0 <= x < after.credentials.len() && 0 <= y < after.credentials.len()
                    && #[trigger] after.credentials[x].email == #[trigger] after.credentials[y].email
                    implies x == y by {
                let x2 = if x < i { x } else { x + 1 };
                let y2 = if y < i { y } else { y + 1 };
                assert(before.credentials[x2].email == before.credentials[y2].email);
            }
            assert forall|x: int, y: int|
                0 <= x < after.credentials.len() && 0 <= y < after.credentials.len()
                    && #[trigger] after.credentials[x].id == #[trigger] after.credentials[y].id
                    implies x == y by {
                let x2 = if x < i { x } else { x + 1 };
                let y2 = if y < i { y } else { y + 1 };
                assert(before.credentials[x2].id == before.credentials[y2].id);
            }
            assert forall|k: int| 0 <= k < after.credentials.len() implies after.has_user(
                #[trigger] after.credentials[k].id,
            ) by {
                let k2 = if k < i { k } else { k + 1 };
                assert(before.has_user(before.credentials[k2].id));
            }
            if after.has_credential(id) {
                let k = choose|k: int|
                    0 <= k < after.credentials.len() && #[trigger] after.credentials[k].id == id;
                let k2 = if k < i { k } else { k + 1 };
                assert(before.credentials[k2].id == before.credentials[i as int].id);
            }
        }
        1
    }
}

} // verus!

verus! {

impl Store {
    /// Creates account `account` owned by `owner`, writing the account and its ownership
    /// record as one unit. The account row is written first; when the ownership record cannot
    /// be written because `owner` is not a user, the account row is taken back, so a failed
    /// creation leaves the store as it was.
    pub fn create_account(&mut self, account: i64, owner: i64) -> (r: Result<(), StoreError>)
        requires
            old(self)@.wf(),
        ensures
            final(self)@.wf(),
            old(self)@.has_account(account) ==> r == Err::<(), StoreError>(
                StoreError::DuplicateKey,
            ),
            !old(self)@.has_account(account) && !old(self)@.has_user(owner) ==> r == Err::<
                (),
                StoreError,
            >(StoreError::UnknownUser),
            r is Err ==> final(self)@ == old(self)@,
            !old(self)@.has_account(account) && old(self)@.has_user(owner) ==> r is Ok && final(self)@ == old(self)@.with_account(account, owner),
            r is Ok ==> final(self)@.account_gate(owner, account) == Ok::<(), GateError>(()),
            r is Ok ==> forall|u: i64|
                u != owner ==> #[trigger] final(self)@.account_gate(u, account) == Err::<
                    (),
                    GateError,
                >(GateError::Forbidden),
    {
        if self.find_account(account) {
            return Err(StoreError::DuplicateKey);
        }
        let ghost before = self@;
        self.accounts.push(account);
        if self.find_user(owner).is_none() {
            self.accounts.pop();
            proof {
                assert(self@.accounts =~= before.accounts);
                assert(self@ =~= before);
            }
            return Err(StoreError::UnknownUser);
        }
        self.account_users.push((account, owner));
        proof {
            assert(self@ =~= before.with_account(account, owner));
            lemma_new_account_gate(before, account, owner);
        }
        Ok(())
    }

    /// Adds user `user` as a further owner of account `account`.
    pub fn add_account_owner(&mut self, account: i64, user: i64) -> (r: Result<(), StoreError>)
        requires
            old(self)@.wf(),
        ensures
            final(self)@.wf(),
            !old(self)@.has_account(account) ==> r == Err::<(), StoreError>(
                StoreError::UnknownAccount,
            ),
            old(self)@.has_account(account) && !old(self)@.has_user(user) ==> r == Err::<
                (),
                StoreError,
            >(StoreError::UnknownUser),
            old(self)@.has_account(account) && old(self)@.has_user(user) && old(self)@.is_linked(
                account,
                user,
            ) ==> r == Err::<(), StoreError>(StoreError::DuplicateKey),
            r is Err ==> final(self)@ == old(self)@,
            old(self)@.has_account(account) && old(self)@.has_user(user) && !old(self)@.is_linked(
                account,
                user,
            ) ==> r is Ok && final(self)@ == old(self)@.with_owner(account, user),
            r is Ok ==> final(self)@.account_gate(user, account) == Ok::<(), GateError>(()),
    {
        if !self.find_account(account) {
            return Err(StoreError::UnknownAccount);
        }
        if self.find_user(user).is_none() {
            return Err(StoreError::UnknownUser);
        }
        if self.find_link(account, user) {
            return Err(StoreError::DuplicateKey);
        }
        let ghost before = self@;
        self.account_users.push((account, user));
        proof {
            assert(self@ =~= before.with_owner(account, user));
            assert(self@.account_users[before.account_users.len() as int] == (account, user));
        }
        Ok(())
    }

    /// Whether user `identity` may act on account `account`: `NotFound` when there is no such
    /// account, `Forbidden` when no ownership record links it to the user.
    pub fn check_account(&self, identity: i64, account: i64) -> (r: Result<(), GateError>)
        ensures
            r == self@.account_gate(identity, account),
    {
        check_membership(self.find_account(account), self.find_link(account, identity))
    }

    /// Creates causal `id`, owned by `owner` or shared when `owner` is `None`.
    pub fn create_causal(&mut self, id: i64, owner: Option<i64>) -> (r: Result<(), StoreError>)
        requires
            old(self)@.wf(),
        ensures
            final(self)@.wf(),
            old(self)@.has_causal(id) ==> r == Err::<(), StoreError>(StoreError::DuplicateKey),
            !old(self)@.has_causal(id) && owner is Some && !old(self)@.has_user(owner->0) ==> r
                == Err::<(), StoreError>(StoreError::UnknownUser),
            r is Err ==> final(self)@ == old(self)@,
            !old(self)@.has_causal(id) && (owner is None || old(self)@.has_user(owner->0)) ==> r is Ok
                && final(self)@ == old(self)@.with_causal(id, owner),
            r is Ok ==> final(self)@.causal_owner(id) == Some(owner),
    {
        if self.find_causal(id).is_some() {
            return Err(StoreError::DuplicateKey);
        }
        match owner {
            Some(u) => if self.find_user(u).is_none() {
                return Err(StoreError::UnknownUser);
            },
            None => {},
        }
        let ghost before = self@;
        self.causals.push((id, owner));
        proof {
            assert(self@ =~= before.with_causal(id, owner));
            let after = self@;
            let n = before.causals.len() as int;
            assert(after.causals[n].0 == id);
            assert(after.has_causal(id));
            let k = choose|k: int| 0 <= k < after.causals.len() && #[trigger] after.causals[k].0 == id;
            assert(k == n);
        }
        Ok(())
    }

    /// Whether user `identity` may perform `action` on causal `id`: a causal with an owner is
    /// open to its owner only, a shared one may be read by everybody and changed by nobody.
    pub fn check_causal(&self, identity: i64, id: i64, action: Action) -> (r: Result<(), GateError>)
        requires
            self@.wf(),
        ensures
            r == self@.causal_gate(identity, id, action),
    {
        match self.find_causal(id) {
            Some(i) => {
                let owner = self.causals[i].1;
                proof {
                    let k = choose|k: int|
                        0 <= k < self@.causals.len() && #[trigger] self@.causals[k].0 == id;
                    assert(k == i);
                }
                check_owner(identity, Some(owner), action, SharedPolicy::ReadOnly)
            },
            None => check_owner(identity, None, action, SharedPolicy::ReadOnly),
        }
    }
}

/// Creating an account with its ownership record gives the creator access and nobody else:
/// any other user is refused with `Forbidden`.
pub proof fn lemma_new_account_gate(s: StoreView, account: i64, owner: i64)
    requires
        s.wf(),
        !s.has_account(account),
    ensures
        s.with_account(account, owner).wf() || !s.has_user(owner),
        s.with_account(account, owner).account_gate(owner, account) == Ok::<(), GateError>(()),
        forall|u: i64|
            u != owner ==> #[trigger] s.with_account(account, owner).account_gate(u, account)
                == Err::<(), GateError>(GateError::Forbidden),
{
    let t = s.with_account(account, owner);
    let n = s.account_users.len() as int;
    assert(t.account_users[n] == (account, owner));
    assert(t.accounts[s.accounts.len() as int] == account);
    assert forall|u: i64| u != owner implies #[trigger] t.account_gate(u, account) == Err::<
        (),
        GateError,
    >(GateError::Forbidden) by {
        if t.account_users.contains((account, u)) {
            let k = choose|k: int| 0 <= k < t.account_users.len() && t.account_users[k] == (account, u);
            assert(k != n);
            assert(s.account_users[k] == (account, u));
            assert(s.has_account(s.account_users[k].0));
        }
    }
    assert forall|i: int| 0 <= i < t.account_users.len() implies t.has_account(
        #[trigger] t.account_users[i].0,
    ) by {
        if i < n {
            assert(s.has_account(s.account_users[i].0));
            let k = choose|k: int| 0 <= k < s.accounts.len() && s.accounts[k] == s.account_users[i].0;
            assert(t.accounts[k] == t.account_users[i].0);
        }
    }
    assert forall|i: int, j: int|
        0 <= i < t.accounts.len() && 0 <= j < t.accounts.len() && #[trigger] t.accounts[i]
            == #[trigger] t.accounts[j] implies i == j by {
        let m = s.accounts.len() as int;
        if i < m && j < m {
            assert(s.accounts[i] == s.accounts[j]);
        } else if i < m {
            assert(s.accounts[i] == account);
        } else if j < m {
            assert(s.accounts[j] == account);
        }
    }
}

/// A shared causal (one without owner) may be read by every user and changed by none.
pub proof fn lemma_shared_causal_gate(s: StoreView, id: i64, identity: i64)
    requires
        s.causal_owner(id) == Some(None::<i64>),
    ensures
        s.causal_gate(identity, id, Action::Read) == Ok::<(), GateError>(()),
        s.causal_gate(identity, id, Action::Modify) == Err::<(), GateError>(GateError::Forbidden),
{
}

} // verus!

verus! {

impl Store {
    /// Removes account `account` together with every ownership record that names it. Returns
    /// how many accounts were removed.
    pub fn delete_account(&mut self, account: i64) -> (r: usize)
        requires
            old(self)@.wf(),
        ensures
            final(self)@.wf(),
            r == if old(self)@.has_account(account) {
                1usize
            } else {
                0usize
            },
            r == 0 ==> final(self)@ == old(self)@,
            forall|a: i64| #[trigger]
                final(self)@.has_account(a) <==> (old(self)@.has_account(a) && a != account),
            forall|a: i64, u: i64| #[trigger]
                final(self)@.is_linked(a, u) <==> (old(self)@.is_linked(a, u) && a != account),
            final(self)@.users == old(self)@.users,
            final(self)@.credentials == old(self)@.credentials,
            final(self)@.causals == old(self)@.causals,
            final(self)@.transactions == old(self)@.transactions,
            final(self)@.details == old(self)@.details,
    {
        let ghost before = self@;
        let idx = match self.account_index(account) {
            Some(i) => i,
            None => {
                proof {
                    assert forall|a: i64, u: i64| #[trigger] self@.is_linked(a, u) implies a
                        != account by {
                        let k = choose|k: int|
                            0 <= k < self@.account_users.len() && self@.account_users[k] == (a, u);
                        assert(self@.has_account(self@.account_users[k].0));
                    }
                }
                return 0;
            },
        };
        self.accounts.remove(idx);
        let links = &self.account_users;
        let mut kept: Vec<(i64, i64)> = Vec::new();
        let mut i: usize = 0;
        while i < links.len()
            invariant
                i <= links@.len(),
                links@ == before.account_users,
                forall|j: int|
                    0 <= j < kept@.len() ==> (#[trigger] kept@[j]).0 != account && exists|k: int|
                        0 <= k < i && links@[k] == kept@[j],
                forall|k: int|
                    0 <= k < i && (#[trigger] links@[k]).0 != account ==> kept@.contains(
                        links@[k],
                    ),
            decreases links.len() - i,
        {
            let p = links[i];
            let ghost old_kept = kept@;
            if p.0 != account {
                kept.push(p);
                proof {
                    assert(kept@[kept@.len() - 1] == p);
                }
            }
            proof {
                assert forall|k: int|
                    0 <= k < i + 1 && (#[trigger] links@[k]).0 != account implies kept@.contains(
                    links@[k],
                ) by {
                    if k < i {
                        let j = choose|j: int| 0 <= j < old_kept.len() && old_kept[j] == links@[k];
                        assert(kept@[j] == links@[k]);
                    } else {
                        assert(kept@[kept@.len() - 1] == links@[k]);
                    }
                }
            }
            i = i + 1;
        }
        self.account_users = kept;
        proof {
            let after = self@;
            assert(after.accounts =~= before.accounts.remove(idx as int));
            assert forall|a: i64| #[trigger]
                after.has_account(a) <==> (before.has_account(a) && a != account) by {
                if before.has_account(a) && a != account {
                    let k = choose|k: int| 0 <= k < before.accounts.len() && before.accounts[k] == a;
                    if k < idx {
                        assert(after.accounts[k] == a);
                    } else {
                        assert(k != idx);
                        assert(after.accounts[k - 1] == a);
                    }
                }
                if after.has_account(a) {
                    let k = choose|k: int| 0 <= k < after.accounts.len() && after.accounts[k] == a;
                    if k < idx {
                        assert(before.accounts[k] == a);
                    } else {
                        assert(before.accounts[k + 1] == a);
                        assert(before.accounts[k + 1] != before.accounts[idx as int]);
                    }
                }
            }
            assert forall|a: i64, u: i64| #[trigger]
                after.is_linked(a, u) <==> (before.is_linked(a, u) && a != account) by {
                if after.is_linked(a, u) {
                    let j = choose|j: int|
                        0 <= j < after.account_users.len() && after.account_users[j] == (a, u);
                    assert(after.account_users[j].0 != account);
                }
                if before.is_linked(a, u) && a != account {
                    let k = choose|k: int|
                        0 <= k < before.account_users.len() && before.account_users[k] == (a, u);
                    assert(before.account_users[k].0 != account);
                }
            }
            assert forall|j: int| 0 <= j < after.account_users.len() implies after.has_account(
                #[trigger] after.account_users[j].0,
            ) by {
                let p = after.account_users[j];
                assert(after.is_linked(p.0, p.1));
                assert(before.is_linked(p.0, p.1));
                let k = choose|k: int|
                    0 <= k < before.account_users.len() && before.account_users[k] == p;
                assert(before.has_account(before.account_users[k].0));
            }
            assert forall|x: int, y: int|
                0 <= x < after.accounts.len() && 0 <= y < after.accounts.len()
                    && #[trigger] after.accounts[x] == #[trigger] after.accounts[y] implies x
                    == y by {
                let x2 = if x < idx { x } else { x + 1 };
                let y2 = if y < idx { y } else { y + 1 };
                assert(before.accounts[x2] == before.accounts[y2]);
            }
            assert(after.users == before.users);
            assert(after.credentials == before.credentials);
            assert(after.causals == before.causals);
            assert(after.transactions == before.transactions);
            assert(after.details == before.details);
        }
        1
    }

    /// The accounts that user `user` owns, each once.
    pub fn read_accounts_by_user(&self, user: i64) -> (r: Vec<i64>)
        requires
            self@.wf(),
        ensures
            forall|a: i64| #[trigger] r@.contains(a) <==> self@.is_linked(a, user),
            r@.no_duplicates(),
    {
        let links = &self.account_users;
        let mut out: Vec<i64> = Vec::new();
        let mut i: usize = 0;
        while i < links.len()
            invariant
                i <= links@.len(),
                links@ == self@.account_users,
                out@.no_duplicates(),
                forall|a: i64| #[trigger]
                    out@.contains(a) <==> exists|k: int| 0 <= k < i && links@[k] == (a, user),
            decreases links.len() - i,
        {
            let (a, u) = links[i];
            let ghost old_out = out@;
            if u == user {
                let mut seen = false;
                let mut j: usize = 0;
                while j < out.len()
                    invariant
                        j <= out@.len(),
                        out@ == old_out,
                        seen == exists|m: int| 0 <= m < j && out@[m] == a,
                    decreases out.len() - j,
                {
                    if out[j] == a {
                        seen = true;
                    }
                    j = j + 1;
                }
                if !seen {
                    out.push(a);
                    proof {
                        assert(out@[out@.len() - 1] == a);
                        assert forall|x: int, y: int|
                            0 <= x < out@.len() && 0 <= y < out@.len() && x != y implies out@[x]
                            != out@[y] by {
                            if x < old_out.len() && y < old_out.len() {
                                assert(old_out[x] != old_out[y]);
                            } else if x < old_out.len() {
                                assert(old_out[x] != a);
                            } else if y < old_out.len() {
                                assert(old_out[y] != a);
                            }
                        }
                    }
                }
            }
            proof {
                assert forall|b: i64| #[trigger]
                    out@.contains(b) <==> exists|k: int| 0 <= k < i + 1 && links@[k] == (b, user) by {
                    if u == user && b == a {
                        assert(links@[i as int] == (b, user));
                    } else {
                        if out@.contains(b) {
                            let m = choose|m: int| 0 <= m < out@.len() && out@[m] == b;
                            if m < old_out.len() {
                                assert(old_out[m] == b);
                                assert(old_out.contains(b));
                            }
                        }
                        if exists|k: int| 0 <= k < i + 1 && links@[k] == (b, user) {
                            let k = choose|k: int| 0 <= k < i + 1 && links@[k] == (b, user);
                            assert(k != i);
                            assert(old_out.contains(b));
                            let m = choose|m: int| 0 <= m < old_out.len() && old_out[m] == b;
                            assert(out@[m] == b);
                        }
                    }
                }
            }
            i = i + 1;
        }
        out
    }
}

} // verus!

verus! {

impl Store {
    fn find_transaction(&self, id: i64) -> (r: Option<usize>)
        ensures
            match r {
                Some(i) => i < self@.transactions.len() && self@.transactions[i as int].0 == id,
                None => !self@.has_transaction(id),
            },
    {
        let mut i: usize = 0;
        while i < self.transactions.len()
            invariant
                i <= self.transactions@.len(),
                forall|k: int| 0 <= k < i ==> self@.transactions[k].0 != id,
            decreases self.transactions.len() - i,
        {
            if self.transactions[i].0 == id {
                return Some(i);
            }
            i = i + 1;
        }
        None
    }

    fn find_detail(&self, id: i64) -> (r: Option<usize>)
        ensures
            match r {
                Some(i) => i < self@.details.len() && self@.details[i as int].0 == id,
                None => !self@.has_detail(id),
            },
    {
        let mut i: usize = 0;
        while i < self.details.len()
            invariant
                i <= self.details@.len(),
                forall|k: int| 0 <= k < i ==> self@.details[k].0 != id,
            decreases self.details.len() - i,
        {
            if self.details[i].0 == id {
                return Some(i);
            }
            i = i + 1;
        }
        None
    }

    /// Records transaction `id` on account `account`.
    pub fn create_transaction(&mut self, id: i64, account: i64) -> (r: Result<(), StoreError>)
        requires
            old(self)@.wf(),
        ensures
            final(self)@.wf(),
            old(self)@.has_transaction(id) ==> r == Err::<(), StoreError>(StoreError::DuplicateKey),
            !old(self)@.has_transaction(id) && !old(self)@.has_account(account) ==> r == Err::<
                (),
                StoreError,
            >(StoreError::UnknownAccount),
            r is Err ==> final(self)@ == old(self)@,
            !old(self)@.has_transaction(id) && old(self)@.has_account(account) ==> r is Ok
                && final(self)@ == old(self)@.with_transaction(id, account),
            r is Ok ==> final(self)@.transaction_account(id) == Some(account),
    {
        if self.find_transaction(id).is_some() {
            return Err(StoreError::DuplicateKey);
        }
        if !self.find_account(account) {
            return Err(StoreError::UnknownAccount);
        }
        let ghost before = self@;
        self.transactions.push((id, account));
        proof {
            assert(self@ =~= before.with_transaction(id, account));
            let after = self@;
            let n = before.transactions.len() as int;
            assert(after.transactions[n].0 == id);
            assert(after.has_transaction(id));
            let k = choose|k: int|
                0 <= k < after.transactions.len() && #[trigger] after.transactions[k].0 == id;
            assert(k == n);
        }
        Ok(())
    }

    /// Whether user `identity` may act on transaction `id`, through the ownership of its
    /// account.
    pub fn check_transaction(&self, identity: i64, id: i64) -> (r: Result<(), GateError>)
        requires
            self@.wf(),
        ensures
            r == self@.transaction_gate(identity, id),
    {
        match self.find_transaction(id) {
            Some(i) => {
                let account = self.transactions[i].1;
                proof {
                    let k = choose|k: int|
                        0 <= k < self@.transactions.len() && #[trigger] self@.transactions[k].0
                            == id;
                    assert(k == i);
                }
                check_through_parent(true, self.check_account(identity, account))
            },
            None => check_through_parent(false, Ok(())),
        }
    }

    /// Creates detail `id`, owned by `owner` or open to everybody when `owner` is `None`.
    pub fn create_detail(&mut self, id: i64, owner: Option<i64>) -> (r: Result<(), StoreError>)
        requires
            old(self)@.wf(),
        ensures
            final(self)@.wf(),
            old(self)@.has_detail(id) ==> r == Err::<(), StoreError>(StoreError::DuplicateKey),
            !old(self)@.has_detail(id) && owner is Some && !old(self)@.has_user(owner->0) ==> r
                == Err::<(), StoreError>(StoreError::UnknownUser),
            r is Err ==> final(self)@ == old(self)@,
            !old(self)@.has_detail(id) && (owner is None || old(self)@.has_user(owner->0)) ==> r is Ok
                && final(self)@ == old(self)@.with_detail(id, owner),
            r is Ok ==> final(self)@.detail_owner(id) == Some(owner),
    {
        if self.find_detail(id).is_some() {
            return Err(StoreError::DuplicateKey);
        }
        match owner {
            Some(u) => if self.find_user(u).is_none() {
                return Err(StoreError::UnknownUser);
            },
            None => {},
        }
        let ghost before = self@;
        self.details.push((id, owner));
        proof {
            assert(self@ =~= before.with_detail(id, owner));
            let after = self@;
            let n = before.details.len() as int;
            assert(after.details[n].0 == id);
            assert(after.has_detail(id));
            let k = choose|k: int| 0 <= k < after.details.len() && #[trigger] after.details[k].0 == id;
            assert(k == n);
        }
        Ok(())
    }

    /// Whether user `identity` may perform `action` on detail `id`.
    pub fn check_detail(&self, identity: i64, id: i64, action: Action) -> (r: Result<(), GateError>)
        requires
            self@.wf(),
        ensures
            r == self@.detail_gate(identity, id, action),
    {
        match self.find_detail(id) {
            Some(i) => {
                let owner = self.details[i].1;
                proof {
                    let k = choose|k: int|
                        0 <= k < self@.details.len() && #[trigger] self@.details[k].0 == id;
                    assert(k == i);
                }
                check_owner(identity, Some(owner), action, SharedPolicy::Open)
            },
            None => check_owner(identity, None, action, SharedPolicy::Open),
        }
    }

    /// Whether user `identity` may perform `action` on the link between a transaction and a
    /// detail: the transaction and the detail are both checked, the transaction first.
    pub fn check_transaction_detail(
        &self,
        identity: i64,
        transaction: i64,
        detail: i64,
        action: Action,
    ) -> (r: Result<(), GateError>)
        requires
            self@.wf(),
        ensures
            r == self@.transaction_detail_gate(identity, transaction, detail, action),
    {
        let first = self.check_transaction(identity, transaction);
        let second = self.check_detail(identity, detail, action);
        check_both(first, second)
    }
}

} // verus!

verus! {

impl Store {
    /// Removes the ownership record that links account `account` to user `user`. Returns
    /// whether there was one; the account itself stays.
    pub fn remove_account_owner(&mut self, account: i64, user: i64) -> (r: bool)
        requires
            old(self)@.wf(),
        ensures
            final(self)@.wf(),
            r == old(self)@.is_linked(account, user),
            !final(self)@.is_linked(account, user),
            forall|a: i64, u: i64| #![trigger final(self)@.is_linked(a, u)]
                (a, u) != (account, user) ==> (final(self)@.is_linked(a, u) == old(self)@.is_linked(a, u)),
            final(self)@.users == old(self)@.users,
            final(self)@.credentials == old(self)@.credentials,
            final(self)@.accounts == old(self)@.accounts,
            final(self)@.causals == old(self)@.causals,
            final(self)@.transactions == old(self)@.transactions,
            final(self)@.details == old(self)@.details,
    {
        let ghost before = self@;
        let found = self.find_link(account, user);
        let links = &self.account_users;
        let mut kept: Vec<(i64, i64)> = Vec::new();
        let mut i: usize = 0;
        while i < links.len()
            invariant
                i <= links@.len(),
                links@ == before.account_users,
                forall|j: int|
                    0 <= j < kept@.len() ==> #[trigger] kept@[j] != (account, user) && exists|k: int|
                        0 <= k < i && links@[k] == kept@[j],
                forall|k: int|
                    0 <= k < i && #[trigger] links@[k] != (account, user) ==> kept@.contains(
                        links@[k],
                    ),
            decreases links.len() - i,
        {
            let p = links[i];
            let ghost old_kept = kept@;
            if p.0 != account || p.1 != user {
                kept.push(p);
                proof {
                    assert(kept@[kept@.len() - 1] == p);
                }
            }
            proof {
                assert forall|k: int|
                    0 <= k < i + 1 && #[trigger] links@[k] != (account, user) implies kept@.contains(
                    links@[k],
                ) by {
                    if k < i {
                        let j = choose|j: int| 0 <= j < old_kept.len() && old_kept[j] == links@[k];
                        assert(kept@[j] == links@[k]);
                    } else {
                        assert(kept@[kept@.len() - 1] == links@[k]);
                    }
                }
            }
            i = i + 1;
        }
        self.account_users = kept;
        proof {
            let after = self@;
            assert forall|a: i64, u: i64| #![trigger after.is_linked(a, u)]
                (a, u) != (account, user) implies (after.is_linked(a, u) == before.is_linked(
                a,
                u,
            )) by {
                if after.is_linked(a, u) {
                    let j = choose|j: int|
                        0 <= j < after.account_users.len() && after.account_users[j] == (a, u);
                    assert(after.account_users[j] == (a, u));
                }
                if before.is_linked(a, u) {
                    let k = choose|k: int|
                        0 <= k < before.account_users.len() && before.account_users[k] == (a, u);
                    assert(before.account_users[k] != (account, user));
                }
            }
            if after.is_linked(account, user) {
                let j = choose|j: int|
                    0 <= j < after.account_users.len() && after.account_users[j] == (account, user);
                assert(kept@[j] != (account, user));
            }
            assert forall|j: int| 0 <= j < after.account_users.len() implies after.has_account(
                #[trigger] after.account_users[j].0,
            ) by {
                let p = after.account_users[j];
                let k = choose|k: int| 0 <= k < before.account_users.len() && before.account_users[k] == p;
                assert(before.has_account(before.account_users[k].0));
            }
            assert(after.users == before.users);
            assert(after.credentials == before.credentials);
            assert(after.accounts == before.accounts);
            assert(after.causals == before.causals);
            assert(after.transactions == before.transactions);
            assert(after.details == before.details);
        }
        found
    }
}

} // verus!

verus! {

impl Store {
    /// The causals that user `identity` may read: its own and the shared ones, each once.
    pub fn read_causals_for_user(&self, identity: i64) -> (r: Vec<i64>)
        requires
            self@.wf(),
        ensures
            forall|id: i64| #[trigger]
                r@.contains(id) <==> (self@.has_causal(id) && self@.causal_gate(
                    identity,
                    id,
                    Action::Read,
                ) == Ok::<(), GateError>(())),
            r@.no_duplicates(),
    {
        let causals = &self.causals;
        let mut out: Vec<i64> = Vec::new();
        let mut i: usize = 0;
        while i < causals.len()
            invariant
                i <= causals@.len(),
                causals@ == self@.causals,
                self@.wf(),
                out@.no_duplicates(),
                forall|id: i64| #[trigger]
                    out@.contains(id) <==> exists|k: int|
                        0 <= k < i && causals@[k].0 == id && (causals@[k].1 is None
                            || causals@[k].1 == Some(identity)),
            decreases causals.len() - i,
        {
            let (id, owner) = causals[i];
            let ghost old_out = out@;
            let readable = match owner {
                Some(u) => u == identity,
                None => true,
            };
            if readable {
                out.push(id);
                proof {
                    assert(out@[out@.len() - 1] == id);
                    assert forall|x: int, y: int|
                        0 <= x < out@.len() && 0 <= y < out@.len() && x != y implies out@[x]
                        != out@[y] by {
                        if x < old_out.len() && y < old_out.len() {
                            assert(old_out[x] != old_out[y]);
                        } else {
                            let m = if x < old_out.len() { x } else { y };
                            if m < old_out.len() && old_out[m] == id {
                                assert(old_out.contains(id));
                                let k = choose|k: int|
                                    0 <= k < i && causals@[k].0 == id && (causals@[k].1 is None
                                        || causals@[k].1 == Some(identity));
                                assert(self@.causals[k].0 == self@.causals[i as int].0);
                            }
                        }
                    }
                }
            }
            proof {
                assert forall|c: i64| #[trigger]
                    out@.contains(c) <==> exists|k: int|
                        0 <= k < i + 1 && causals@[k].0 == c && (causals@[k].1 is None
                            || causals@[k].1 == Some(identity)) by {
                    if out@.contains(c) && c != id {
                        let m = choose|m: int| 0 <= m < out@.len() && out@[m] == c;
                        if m < old_out.len() {
                            assert(old_out[m] == c);
                            assert(old_out.contains(c));
                        }
                    }
                    if readable && c == id {
                        assert(out@[out@.len() - 1] == c);
                    }
                    if exists|k: int|
                        0 <= k < i + 1 && causals@[k].0 == c && (causals@[k].1 is None
                            || causals@[k].1 == Some(identity)) {
                        let k = choose|k: int|
                            0 <= k < i + 1 && causals@[k].0 == c && (causals@[k].1 is None
                                || causals@[k].1 == Some(identity));
                        if k < i {
                            assert(old_out.contains(c));
                            let m = choose|m: int| 0 <= m < old_out.len() && old_out[m] == c;
                            assert(out@[m] == c);
                        } else {
                            assert(out@[out@.len() - 1] == c);
                        }
                    }
                }
            }
            i = i + 1;
        }
        proof {
            let v = self@;
            assert forall|id: i64| #[trigger]
                out@.contains(id) <==> (v.has_causal(id) && v.causal_gate(identity, id, Action::Read)
                    == Ok::<(), GateError>(())) by {
                if v.has_causal(id) {
                    let k = choose|k: int| 0 <= k < v.causals.len() && #[trigger] v.causals[k].0 == id;
                    if exists|j: int|
                        0 <= j < causals@.len() && causals@[j].0 == id && (causals@[j].1 is None
                            || causals@[j].1 == Some(identity)) {
                        let j = choose|j: int|
                            0 <= j < causals@.len() && causals@[j].0 == id && (causals@[j].1 is None
                                || causals@[j].1 == Some(identity));
                        assert(v.causals[j].0 == v.causals[k].0);
                    }
                }
                if out@.contains(id) {
                    let j = choose|j: int|
                        0 <= j < causals@.len() && causals@[j].0 == id && (causals@[j].1 is None
                            || causals@[j].1 == Some(identity));
                    assert(v.causals[j].0 == id);
                    assert(v.has_causal(id));
                    let k = choose|k: int| 0 <= k < v.causals.len() && #[trigger] v.causals[k].0 == id;
                    assert(v.causals[j].0 == v.causals[k].0);
                }
            }
        }
        out
    }

    /// Removes causal `id`. Returns how many causals were removed.
    pub fn delete_causal(&mut self, id: i64) -> (r: usize)
        requires
            old(self)@.wf(),
        ensures
            final(self)@.wf(),
            r == if old(self)@.has_causal(id) {
                1usize
            } else {
                0usize
            },
            r == 0 ==> final(self)@ == old(self)@,
            !final(self)@.has_causal(id),
            forall|c: i64| #[trigger]
                final(self)@.has_causal(c) <==> (old(self)@.has_causal(c) && c != id),
            forall|c: i64|
                c != id ==> #[trigger] final(self)@.causal_owner(c) == old(self)@.causal_owner(c),
            final(self)@.users == old(self)@.users,
            final(self)@.credentials == old(self)@.credentials,
            final(self)@.accounts == old(self)@.accounts,
            final(self)@.account_users == old(self)@.account_users,
            final(self)@.transactions == old(self)@.transactions,
            final(self)@.details == old(self)@.details,
    {
        let i = match self.find_causal(id) {
            Some(i) => i,
            None => return 0,
        };
        let ghost before = self@;
        self.causals.remove(i);
        proof {
            let after = self@;
            assert(after.causals =~= before.causals.remove(i as int));
            assert forall|x: int, y: int|
                0 <= x < after.causals.len() && 0 <= y < after.causals.len()
                    && #[trigger] after.causals[x].0 == #[trigger] after.causals[y].0 implies x
                    == y by {
                let x2 = if x < i { x } else { x + 1 };
                let y2 = if y < i { y } else { y + 1 };
                assert(before.causals[x2].0 == before.causals[y2].0);
            }
            assert forall|c: i64| #[trigger]
                after.has_causal(c) <==> (before.has_causal(c) && c != id) by {
                if after.has_causal(c) {
                    let k = choose|k: int| 0 <= k < after.causals.len() && #[trigger] after.causals[k].0 == c;
                    let k2 = if k < i { k } else { k + 1 };
                    assert(before.causals[k2].0 == c);
                    assert(k2 != i);
                    assert(before.causals[k2].0 != before.causals[i as int].0);
                }
                if before.has_causal(c) && c != id {
                    let k = choose|k: int| 0 <= k < before.causals.len() && #[trigger] before.causals[k].0 == c;
                    if k < i {
                        assert(after.causals[k].0 == c);
                    } else {
                        assert(k != i);
                        assert(after.causals[k - 1].0 == c);
                    }
                }
            }
            assert forall|c: i64| c != id implies #[trigger] after.causal_owner(c)
                == before.causal_owner(c) by {
                if after.has_causal(c) {
                    let k = choose|k: int| 0 <= k < after.causals.len() && #[trigger] after.causals[k].0 == c;
                    let k2 = if k < i { k } else { k + 1 };
                    assert(before.causals[k2] == after.causals[k]);
                    let kb = choose|kb: int| 0 <= kb < before.causals.len() && #[trigger] before.causals[kb].0 == c;
                    assert(before.causals[kb].0 == before.causals[k2].0);
                }
            }
            assert(after.users == before.users);
            assert(after.credentials == before.credentials);
            assert(after.accounts == before.accounts);
            assert(after.account_users == before.account_users);
            assert(after.transactions == before.transactions);
            assert(after.details == before.details);
        }
        1
    }
}

} // verus!
