//! Laws relating the lifecycle operations, proved over the spec-level
//! outcome functions that the operations' contracts are stated with.

use crate::errors::AuthError;
use crate::password::{hash_matches, hash_wellformed, spec_check_password};
use crate::service::{spec_login_err, spec_login_ok, spec_validate};
use crate::session::{live_reset, reset_keys_unique, ResetEntry};
use crate::store::{email_index, emails_unique, has_email, has_id, id_index, UserRecord};
use crate::token::spec_verify;
use vstd::prelude::*;

verus! {

/// Law: checking a freshly produced hash against the password it was made
/// from reports a clean match, as often as the check is repeated. The two
/// hypotheses are exactly what hashing ensures of its result.
pub proof fn lemma_hash_then_verify(h: Seq<char>, p: Seq<char>)
    requires
        hash_wellformed(h),
        hash_matches(h, p),
    ensures
        spec_check_password(h, p) == Ok::<bool, AuthError>(true),
{
}

/// Law: after an account with a fresh email is created — its stored hash
/// matching the password, as signup ensures — a login with the same
/// credentials is owed success and reports no error.
pub proof fn lemma_signup_then_login(
    rows: Seq<UserRecord>,
    email: Seq<char>,
    password: Seq<char>,
    i: int,
)
    requires
        emails_unique(rows),
        0 <= i < rows.len(),
        rows[i].email@ == email,
        hash_wellformed(rows[i].password_hash@),
        hash_matches(rows[i].password_hash@, password),
    ensures
        spec_login_ok(rows, email, password),
        spec_login_err(rows, email, password) is None,
{
    assert(has_email(rows, email)) by {
        assert(rows[i].email@ == email);
    }
    let k = email_index(rows, email);
    assert(0 <= k < rows.len() && rows[k].email@ == email);
    assert(k == i);
}

/// Law: a login that fails because the email is unknown and one that fails
/// because the password mismatches are indistinguishable: one and the same
/// error kind, hence one and the same message.
pub proof fn lemma_login_rejection_uniform(
    rows: Seq<UserRecord>,
    missing_email: Seq<char>,
    password_a: Seq<char>,
    taken_email: Seq<char>,
    password_b: Seq<char>,
    i: int,
)
    requires
        emails_unique(rows),
        !has_email(rows, missing_email),
        0 <= i < rows.len(),
        rows[i].email@ == taken_email,
        hash_wellformed(rows[i].password_hash@),
        !hash_matches(rows[i].password_hash@, password_b),
    ensures
        spec_login_err(rows, missing_email, password_a) == Some(AuthError::Unauthorized),
        spec_login_err(rows, taken_email, password_b) == Some(AuthError::Unauthorized),
        spec_login_err(rows, missing_email, password_a) == spec_login_err(
            rows,
            taken_email,
            password_b,
        ),
{
    assert(has_email(rows, taken_email)) by {
        assert(rows[i].email@ == taken_email);
    }
    let k = email_index(rows, taken_email);
    assert(0 <= k < rows.len() && rows[k].email@ == taken_email);
    assert(k == i);
}

/// Law: once a reset grant's thirty minutes have elapsed, the grant is dead:
/// a password reset with its token is refused as a bad request, which is
/// what the reset operation's contract returns for a token that is not
/// live.
pub proof fn lemma_reset_grant_expires(
    rows: Seq<ResetEntry>,
    token: Seq<char>,
    i: int,
    now: u128,
)
    requires
        reset_keys_unique(rows),
        0 <= i < rows.len(),
        rows[i].token@ == token,
        now >= rows[i].expires_at,
    ensures
        !live_reset(rows, token, now),
{
    assert forall|j: int|
        0 <= j < rows.len() && #[trigger] rows[j].token@ == token implies !(now
        < rows[j].expires_at) by {
        assert(j == i);
    }
}

/// Law: an access token that is still genuine and unexpired is nonetheless
/// rejected as unauthorized once its subject has been marked inactive; the
/// re-fetch of the user record lets deactivation beat the token's natural
/// expiry.
pub proof fn lemma_inactive_user_rejected(
    rows: Seq<UserRecord>,
    secret: Seq<u8>,
    tok: Seq<u8>,
    now: u128,
    i: int,
)
    requires
        forall|a: int, b: int| 0 <= a < b < rows.len() ==> #[trigger] rows[a].id != #[trigger] rows[b].id,
        spec_verify(secret, tok, now) is Ok,
        0 <= i < rows.len(),
        rows[i].id == spec_verify(secret, tok, now)->Ok_0.sub,
        !rows[i].is_active,
    ensures
        spec_validate(rows, secret, tok, now) == Err::<u128, AuthError>(AuthError::Unauthorized),
{
    let c = spec_verify(secret, tok, now)->Ok_0;
    assert(has_id(rows, c.sub)) by {
        assert(rows[i].id == c.sub);
    }
    let k = id_index(rows, c.sub);
    assert(0 <= k < rows.len() && rows[k].id == c.sub);
    assert(k == i);
}

} // verus!
