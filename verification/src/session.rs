//! The session store model: an expiring key-value store holding refresh
//! tokens keyed by user identity and password-reset tokens keyed by the
//! token itself. An entry is live strictly before its expiry; a lookup of
//! an absent or expired entry reports absence, not an error.

use vstd::prelude::*;

verus! {

/// A registered refresh token: advisory state for future revocation; no
/// lifecycle operation reads it back.
pub struct RefreshEntry {
    pub user_id: u128,
    pub token: Vec<u8>,
    /// The instant, in seconds, from which the entry is no longer live.
    pub expires_at: u128,
}

/// A stored password-reset grant.
pub struct ResetEntry {
    /// The opaque reset token.
    pub token: String,
    /// The user allowed to reset their password with it.
    pub user_id: u128,
    /// The instant, in seconds, from which the entry is no longer live.
    pub expires_at: u128,
}

/// Whether some refresh entry is keyed by this user.
pub open spec fn has_refresh(rows: Seq<RefreshEntry>, user_id: u128) -> bool {
    exists|i: int| 0 <= i < rows.len() && #[trigger] rows[i].user_id == user_id
}

/// The index of the refresh entry keyed by this user (meaningful under key
/// uniqueness).
pub open spec fn refresh_index(rows: Seq<RefreshEntry>, user_id: u128) -> int {
    choose|i: int| 0 <= i < rows.len() && #[trigger] rows[i].user_id == user_id
}

/// Whether some reset entry is keyed by this token.
pub open spec fn has_reset(rows: Seq<ResetEntry>, token: Seq<char>) -> bool {
    exists|i: int| 0 <= i < rows.len() && #[trigger] rows[i].token@ == token
}

/// The index of the reset entry keyed by this token (meaningful under key
/// uniqueness).
pub open spec fn reset_index(rows: Seq<ResetEntry>, token: Seq<char>) -> int {
    choose|i: int| 0 <= i < rows.len() && #[trigger] rows[i].token@ == token
}

/// Refresh rows are keyed by pairwise distinct user identities.
pub open spec fn refresh_keys_unique(rows: Seq<RefreshEntry>) -> bool {
    forall|i: int, j: int|
        0 <= i < j < rows.len() ==> #[trigger] rows[i].user_id != #[trigger] rows[j].user_id
}

/// Reset rows are keyed by pairwise distinct tokens.
pub open spec fn reset_keys_unique(rows: Seq<ResetEntry>) -> bool {
    forall|i: int, j: int|
        0 <= i < j < rows.len() ==> #[trigger] rows[i].token@ != #[trigger] rows[j].token@
}

/// The rows after writing a refresh entry: the row under the same key is
/// replaced, or a new row is appended.
pub open spec fn refresh_put(rows: Seq<RefreshEntry>, e: RefreshEntry) -> Seq<RefreshEntry> {
    if has_refresh(rows, e.user_id) {
        rows.update(refresh_index(rows, e.user_id), e)
    } else {
        rows.push(e)
    }
}

/// The rows after writing a reset entry: the row under the same key is
/// replaced, or a new row is appended.
pub open spec fn reset_put(rows: Seq<ResetEntry>, e: ResetEntry) -> Seq<ResetEntry> {
    if has_reset(rows, e.token@) {
        rows.update(reset_index(rows, e.token@), e)
    } else {
        rows.push(e)
    }
}

/// Whether a live reset entry for this token exists at time `now`.
pub open spec fn live_reset(rows: Seq<ResetEntry>, token: Seq<char>, now: u128) -> bool {
    exists|i: int|
        0 <= i < rows.len() && #[trigger] rows[i].token@ == token && now < rows[i].expires_at
}

/// The user a live reset entry grants a reset to.
pub open spec fn reset_user(rows: Seq<ResetEntry>, token: Seq<char>, now: u128) -> u128 {
    rows[choose|i: int|
        0 <= i < rows.len() && #[trigger] rows[i].token@ == token && now
            < rows[i].expires_at].user_id
}

/// Ephemeral expiring storage for refresh and reset tokens.
pub struct SessionStore {
    refresh: Vec<RefreshEntry>,
    reset: Vec<ResetEntry>,
}

impl SessionStore {
    /// The refresh rows, for contracts.
    pub closed spec fn refresh_rows(&self) -> Seq<RefreshEntry> {
        self.refresh@
    }

    /// The reset rows, for contracts.
    pub closed spec fn reset_rows(&self) -> Seq<ResetEntry> {
        self.reset@
    }

    /// The store's invariant: keys are unique on each side.
    pub open spec fn wf(&self) -> bool {
        refresh_keys_unique(self.refresh_rows()) && reset_keys_unique(self.reset_rows())
    }

    /// An empty store.
    pub fn new() -> (r: SessionStore)
        ensures
            r.wf(),
            r.refresh_rows() =~= Seq::<RefreshEntry>::empty(),
            r.reset_rows() =~= Seq::<ResetEntry>::empty(),
    {
        SessionStore { refresh: Vec::new(), reset: Vec::new() }
    }

    /// How many reset grants are stored, live or expired.
    pub fn reset_entry_count(&self) -> (r: usize)
        ensures
            r == self.reset_rows().len(),
    {
        self.reset.len()
    }

    /// How many refresh registrations are stored, live or expired.
    pub fn refresh_entry_count(&self) -> (r: usize)
        ensures
            r == self.refresh_rows().len(),
    {
        self.refresh.len()
    }

    /// Registers a refresh token under the user's identity, replacing any
    /// earlier registration for that user.
    #[verifier::loop_isolation(false)]
    pub fn put_refresh(&mut self, user_id: u128, token: Vec<u8>, expires_at: u128)
        requires
            old(self).wf(),
        ensures
            final(self).wf(),
            final(self).refresh_rows() == refresh_put(
                old(self).refresh_rows(),
                RefreshEntry { user_id, token, expires_at },
            ),
            final(self).reset_rows() == old(self).reset_rows(),
    {
        let entry = RefreshEntry { user_id, token, expires_at };
        let n: usize = self.refresh.len();
        let mut i: usize = 0;
        while i < n
            invariant
                i <= n,
                *self == *old(self),
                n == self.refresh_rows().len(),
                forall|j: int| 0 <= j < i ==> #[trigger] self.refresh_rows()[j].user_id != user_id,
            decreases n - i,
        {
            if self.refresh[i].user_id == user_id {
                let ghost rows = self.refresh_rows();
                proof {
                    let k = refresh_index(rows, user_id);
                    assert(0 <= k < rows.len() && rows[k].user_id == user_id);
                    assert(k == i);
                }
                self.refresh[i] = entry;
                proof {
                    assert forall|a: int, b: int|
                        0 <= a < b < self.refresh_rows().len() implies #[trigger] self
                        .refresh_rows()[a].user_id != #[trigger] self.refresh_rows()[b].user_id by {
                        assert(old(self).refresh_rows()[a].user_id != old(
                            self,
                        ).refresh_rows()[b].user_id);
                        if a != i {
                            assert(self.refresh_rows()[a] == rows[a]);
                        }
                        if b != i {
                            assert(self.refresh_rows()[b] == rows[b]);
                        }
                    }
                }
                return ;
            }
            i = i + 1;
        }
        let ghost rows = self.refresh_rows();
        self.refresh.push(entry);
        proof {
            assert forall|a: int, b: int|
                0 <= a < b < self.refresh_rows().len() implies #[trigger] self.refresh_rows()[a].user_id
                != #[trigger] self.refresh_rows()[b].user_id by {
                if b == rows.len() {
                    assert(self.refresh_rows()[a] == rows[a]);
                    assert(rows[a].user_id != user_id);
                } else {
                    assert(old(self).refresh_rows()[a].user_id != old(
                        self,
                    ).refresh_rows()[b].user_id);
                    assert(self.refresh_rows()[a] == rows[a]);
                    assert(self.refresh_rows()[b] == rows[b]);
                }
            }
        }
    }

    /// Stores a reset grant under the token, replacing any earlier grant
    /// under the same token.
    #[verifier::loop_isolation(false)]
    pub fn put_reset(&mut self, token: String, user_id: u128, expires_at: u128)
        requires
            old(self).wf(),
        ensures
            final(self).wf(),
            final(self).reset_rows() == reset_put(
                old(self).reset_rows(),
                ResetEntry { token, user_id, expires_at },
            ),
            final(self).refresh_rows() == old(self).refresh_rows(),
    {
        let ghost entry_view = ResetEntry { token: token, user_id, expires_at };
        let n: usize = self.reset.len();
        let mut i: usize = 0;
        while i < n
            invariant
                i <= n,
                *self == *old(self),
                n == self.reset_rows().len(),
                forall|j: int| 0 <= j < i ==> #[trigger] self.reset_rows()[j].token@ != token@,
            decreases n - i,
        {
            if self.reset[i].token == token {
                let ghost rows = self.reset_rows();
                proof {
                    let k = reset_index(rows, entry_view.token@);
                    assert(0 <= k < rows.len() && rows[k].token@ == entry_view.token@);
                    assert(k == i);
                }
                self.reset[i] = ResetEntry { token, user_id, expires_at };
                proof {
                    assert forall|a: int, b: int|
                        0 <= a < b < self.reset_rows().len() implies #[trigger] self.reset_rows()[a].token@
                        != #[trigger] self.reset_rows()[b].token@ by {
                        assert(old(self).reset_rows()[a].token@ != old(self).reset_rows()[b].token@);
                        if a != i {
                            assert(self.reset_rows()[a] == rows[a]);
                        }
                        if b != i {
                            assert(self.reset_rows()[b] == rows[b]);
                        }
                    }
                }
                return ;
            }
            i = i + 1;
        }
        let ghost rows = self.reset_rows();
        self.reset.push(ResetEntry { token, user_id, expires_at });
        proof {
            assert forall|a: int, b: int|
                0 <= a < b < self.reset_rows().len() implies #[trigger] self.reset_rows()[a].token@
                != #[trigger] self.reset_rows()[b].token@ by {
                if b == rows.len() {
                    assert(self.reset_rows()[a] == rows[a]);
                    assert(rows[a].token@ != entry_view.token@);
                } else {
                    assert(old(self).reset_rows()[a].token@ != old(self).reset_rows()[b].token@);
                    assert(self.reset_rows()[a] == rows[a]);
                    assert(self.reset_rows()[b] == rows[b]);
                }
            }
        }
    }

    /// Reads the user granted a reset by this token, if the grant is still
    /// live at `now`. Absent and expired grants are alike: absent.
    #[verifier::loop_isolation(false)]
    pub fn get_reset(&self, token: &String, now: u64) -> (r: Option<u128>)
        requires
            self.wf(),
        ensures
            r is Some <==> live_reset(self.reset_rows(), token@, now as u128),
            r matches Some(u) ==> u == reset_user(self.reset_rows(), token@, now as u128),
    {
        let n: usize = self.reset.len();
        let mut i: usize = 0;
        while i < n
            invariant
                i <= n,
                forall|j: int| 0 <= j < i ==> #[trigger] self.reset_rows()[j].token@ != token@,
            decreases n - i,
        {
            if self.reset[i].token == *token {
                if (now as u128) < self.reset[i].expires_at {
                    proof {
                        let rows = self.reset_rows();
                        assert(live_reset(rows, token@, now as u128));
                        let k = choose|k: int|
                            0 <= k < rows.len() && #[trigger] rows[k].token@ == token@ && (
                            now as u128) < rows[k].expires_at;
                        assert(k == i);
                    }
                    return Some(self.reset[i].user_id);
                } else {
                    proof {
                        let rows = self.reset_rows();
                        assert forall|k: int|
                            0 <= k < rows.len() && #[trigger] rows[k].token@ == token@ implies !((
                        now as u128) < rows[k].expires_at) by {
                            assert(k == i);
                        }
                    }
                    return None;
                }
            }
            i = i + 1;
        }
        None
    }
}

} // verus!
