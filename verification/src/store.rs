//! The user store model: durable records keyed by identity and by unique
//! email. Identities are assigned sequentially, as a relational store's key
//! sequence would, so a record's identity equals its position and is never
//! reused; email uniqueness is enforced at creation.

use crate::errors::AuthError;
use vstd::prelude::*;

verus! {

/// A stored user record.
pub struct UserRecord {
    /// Opaque unique identity.
    pub id: u128,
    /// Unique email, case-sensitive as stored.
    pub email: String,
    /// The salted password hash. Never exposed in a response.
    pub password_hash: String,
    pub first_name: String,
    pub last_name: String,
    /// Read by token validation; cleared outside this core.
    pub is_active: bool,
    /// Updated on login, in seconds.
    pub last_login: Option<u64>,
}

/// The public projection of a user: everything but the password hash and
/// the bookkeeping fields.
#[derive(Debug, PartialEq, Eq)]
pub struct PublicUser {
    pub id: u128,
    pub email: String,
    pub first_name: String,
    pub last_name: String,
}

/// Whether some row holds this email.
pub open spec fn has_email(rows: Seq<UserRecord>, email: Seq<char>) -> bool {
    exists|i: int| 0 <= i < rows.len() && #[trigger] rows[i].email@ == email
}

/// The row index holding this email (meaningful under email uniqueness).
pub open spec fn email_index(rows: Seq<UserRecord>, email: Seq<char>) -> int {
    choose|i: int| 0 <= i < rows.len() && #[trigger] rows[i].email@ == email
}

/// Whether some row holds this identity.
pub open spec fn has_id(rows: Seq<UserRecord>, id: u128) -> bool {
    exists|i: int| 0 <= i < rows.len() && #[trigger] rows[i].id == id
}

/// The row index holding this identity (meaningful under identity
/// uniqueness).
pub open spec fn id_index(rows: Seq<UserRecord>, id: u128) -> int {
    choose|i: int| 0 <= i < rows.len() && #[trigger] rows[i].id == id
}

/// Row emails are pairwise distinct.
pub open spec fn emails_unique(rows: Seq<UserRecord>) -> bool {
    forall|i: int, j: int|
        0 <= i < j < rows.len() ==> #[trigger] rows[i].email@ != #[trigger] rows[j].email@
}

/// Each row's identity is its position: identities are unique and assigned
/// in creation order.
pub open spec fn ids_sequential(rows: Seq<UserRecord>) -> bool {
    forall|i: int| 0 <= i < rows.len() ==> #[trigger] rows[i].id == i as u128
}

/// `r` with its password hash replaced.
pub open spec fn with_hash(r: UserRecord, h: String) -> UserRecord {
    UserRecord {
        id: r.id,
        email: r.email,
        password_hash: h,
        first_name: r.first_name,
        last_name: r.last_name,
        is_active: r.is_active,
        last_login: r.last_login,
    }
}

/// `r` with its last-login time set.
pub open spec fn with_last_login(r: UserRecord, now: u64) -> UserRecord {
    UserRecord {
        id: r.id,
        email: r.email,
        password_hash: r.password_hash,
        first_name: r.first_name,
        last_name: r.last_name,
        is_active: r.is_active,
        last_login: Some(now),
    }
}

/// `r` with its active flag set.
pub open spec fn with_active(r: UserRecord, active: bool) -> UserRecord {
    UserRecord {
        id: r.id,
        email: r.email,
        password_hash: r.password_hash,
        first_name: r.first_name,
        last_name: r.last_name,
        is_active: active,
        last_login: r.last_login,
    }
}

/// Durable CRUD over user records.
pub struct UserStore {
    users: Vec<UserRecord>,
}

impl UserStore {
    /// The stored rows, for contracts.
    pub closed spec fn rows(&self) -> Seq<UserRecord> {
        self.users@
    }

    /// The store's invariant: unique emails, identities equal to positions.
    pub open spec fn wf(&self) -> bool {
        emails_unique(self.rows()) && ids_sequential(self.rows())
    }

    /// An empty store.
    pub fn new() -> (r: UserStore)
        ensures
            r.wf(),
            r.rows() =~= Seq::<UserRecord>::empty(),
    {
        UserStore { users: Vec::new() }
    }

    /// The number of records ever created.
    pub fn len(&self) -> (r: usize)
        ensures
            r == self.rows().len(),
    {
        self.users.len()
    }

    /// Creates a user with a fresh identity and `active = true`. Fails with
    /// `AlreadyExists` exactly when the email is taken, leaving the store
    /// unchanged; nothing is pre-checked beyond the uniqueness constraint.
    #[verifier::loop_isolation(false)]
    pub fn create(
        &mut self,
        email: &String,
        password_hash: String,
        first_name: &String,
        last_name: &String,
    ) -> (r: Result<PublicUser, AuthError>)
        requires
            old(self).wf(),
        ensures
            final(self).wf(),
            r is Err <==> has_email(old(self).rows(), email@),
            r is Err ==> r == Err::<PublicUser, AuthError>(AuthError::AlreadyExists) && *final(self)
                == *old(self),
            r matches Ok(u) ==> {
                &&& u.id == old(self).rows().len()
                &&& u.email@ == email@
                &&& u.first_name@ == first_name@
                &&& u.last_name@ == last_name@
                &&& final(self).rows() == old(self).rows().push(
                    UserRecord {
                        id: old(self).rows().len() as u128,
                        email: u.email,
                        password_hash: password_hash,
                        first_name: u.first_name,
                        last_name: u.last_name,
                        is_active: true,
                        last_login: None::<u64>,
                    },
                )
            },
    {
        let n: usize = self.users.len();
        let mut i: usize = 0;
        while i < n
            invariant
                i <= n,
                n == self.rows().len(),
                forall|j: int| 0 <= j < i ==> #[trigger] self.rows()[j].email@ != email@,
            decreases n - i,
        {
            if self.users[i].email == *email {
                return Err(AuthError::AlreadyExists);
            }
            i = i + 1;
        }
        let record = UserRecord {
            id: n as u128,
            email: email.clone(),
            password_hash: password_hash,
            first_name: first_name.clone(),
            last_name: last_name.clone(),
            is_active: true,
            last_login: None,
        };
        let ghost old_rows = self.rows();
        self.users.push(record);
        proof {
            assert forall|a: int, b: int| 0 <= a < b < self.rows().len() implies #[trigger] self
                .rows()[a].email@ != #[trigger] self.rows()[b].email@ by {
                if b == self.rows().len() - 1 {
                    assert(self.rows()[a] == old_rows[a]);
                }
            }
        }
        Ok(
            PublicUser {
                id: n as u128,
                email: email.clone(),
                first_name: first_name.clone(),
                last_name: last_name.clone(),
            },
        )
    }

    /// Looks a user up by email.
    #[verifier::loop_isolation(false)]
    pub fn find_by_email(&self, email: &String) -> (r: Option<usize>)
        ensures
            r matches Some(i) ==> i < self.rows().len() && self.rows()[i as int].email@ == email@,
            r is None ==> !has_email(self.rows(), email@),
    {
        let n: usize = self.users.len();
        let mut i: usize = 0;
        while i < n
            invariant
                i <= n,
                n == self.rows().len(),
                forall|j: int| 0 <= j < i ==> #[trigger] self.rows()[j].email@ != email@,
            decreases n - i,
        {
            if self.users[i].email == *email {
                return Some(i);
            }
            i = i + 1;
        }
        None
    }

    /// The record at a row index.
    pub fn row_at(&self, i: usize) -> (r: &UserRecord)
        requires
            i < self.rows().len(),
        ensures
            *r == self.rows()[i as int],
    {
        &self.users[i]
    }

    /// Looks a user up by identity.
    pub fn find_by_id(&self, id: u128) -> (r: Option<&UserRecord>)
        requires
            self.wf(),
        ensures
            r matches Some(u) ==> id < self.rows().len() && *u == self.rows()[id as int],
            r is None ==> !has_id(self.rows(), id),
    {
        let n: usize = self.users.len();
        if id < n as u128 {
            let i: usize = id as usize;
            Some(&self.users[i])
        } else {
            proof {
                assert forall|i: int| 0 <= i < self.rows().len() implies #[trigger] self.rows()[i].id
                    != id by {
                    assert(self.rows()[i].id == i as u128);
                }
            }
            None
        }
    }

    /// Overwrites the password hash of the user with this identity; a
    /// missing identity changes nothing.
    pub fn update_password(&mut self, id: u128, new_hash: String)
        requires
            old(self).wf(),
        ensures
            final(self).wf(),
            id < old(self).rows().len() ==> final(self).rows() == old(self).rows().update(
                id as int,
                with_hash(old(self).rows()[id as int], new_hash),
            ),
            id >= old(self).rows().len() ==> *final(self) == *old(self),
    {
        let n: usize = self.users.len();
        if id < n as u128 {
            let i: usize = id as usize;
            let updated = UserRecord {
                id: self.users[i].id,
                email: self.users[i].email.clone(),
                password_hash: new_hash,
                first_name: self.users[i].first_name.clone(),
                last_name: self.users[i].last_name.clone(),
                is_active: self.users[i].is_active,
                last_login: self.users[i].last_login,
            };
            self.users[i] = updated;
            proof {
                lemma_update_keeps_wf(old(self).rows(), self.rows(), i as int);
            }
        }
    }

    /// Records a login time for the user with this identity; a missing
    /// identity changes nothing.
    pub fn update_last_login(&mut self, id: u128, now: u64)
        requires
            old(self).wf(),
        ensures
            final(self).wf(),
            id < old(self).rows().len() ==> final(self).rows() == old(self).rows().update(
                id as int,
                with_last_login(old(self).rows()[id as int], now),
            ),
            id >= old(self).rows().len() ==> *final(self) == *old(self),
    {
        let n: usize = self.users.len();
        if id < n as u128 {
            let i: usize = id as usize;
            let updated = UserRecord {
                id: self.users[i].id,
                email: self.users[i].email.clone(),
                password_hash: self.users[i].password_hash.clone(),
                first_name: self.users[i].first_name.clone(),
                last_name: self.users[i].last_name.clone(),
                is_active: self.users[i].is_active,
                last_login: Some(now),
            };
            self.users[i] = updated;
            proof {
                lemma_update_keeps_wf(old(self).rows(), self.rows(), i as int);
            }
        }
    }

    /// Sets the active flag of the user with this identity. Deactivation is
    /// managed outside the lifecycle operations but read by token
    /// validation.
    pub fn set_active(&mut self, id: u128, active: bool)
        requires
            old(self).wf(),
        ensures
            final(self).wf(),
            id < old(self).rows().len() ==> final(self).rows() == old(self).rows().update(
                id as int,
                with_active(old(self).rows()[id as int], active),
            ),
            id >= old(self).rows().len() ==> *final(self) == *old(self),
    {
        let n: usize = self.users.len();
        if id < n as u128 {
            let i: usize = id as usize;
            let updated = UserRecord {
                id: self.users[i].id,
                email: self.users[i].email.clone(),
                password_hash: self.users[i].password_hash.clone(),
                first_name: self.users[i].first_name.clone(),
                last_name: self.users[i].last_name.clone(),
                is_active: active,
                last_login: self.users[i].last_login,
            };
            self.users[i] = updated;
            proof {
                lemma_update_keeps_wf(old(self).rows(), self.rows(), i as int);
            }
        }
    }
}

/// Updating one row in place, keeping its identity and email, preserves the
/// store invariant.
proof fn lemma_update_keeps_wf(before: Seq<UserRecord>, after: Seq<UserRecord>, i: int)
    requires
        emails_unique(before),
        ids_sequential(before),
        0 <= i < before.len(),
        after.len() == before.len(),
        after[i].id == before[i].id,
        after[i].email@ == before[i].email@,
        forall|j: int| 0 <= j < before.len() && j != i ==> #[trigger] after[j] == before[j],
    ensures
        emails_unique(after),
        ids_sequential(after),
{
    assert forall|a: int, b: int| 0 <= a < b < after.len() implies #[trigger] after[a].email@
        != #[trigger] after[b].email@ by {
        assert(before[a].email@ != before[b].email@);
    }
    assert forall|a: int| 0 <= a < after.len() implies #[trigger] after[a].id == a as u128 by {
        assert(before[a].id == a as u128);
    }
}

} // verus!
