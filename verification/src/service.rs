//! The credential and session lifecycle manager: account creation,
//! password-based login, forgotten-password initiation, password reset, and
//! access-token validation, each a short transaction over the user and
//! session stores.

use crate::errors::AuthError;
use crate::password::{check_password, hash_matches, hash_password, hash_wellformed};
use crate::session::{live_reset, refresh_put, reset_put, reset_user, RefreshEntry, ResetEntry,
    SessionStore};
use crate::store::{email_index, has_email, has_id, id_index, with_hash, with_last_login,
    PublicUser, UserRecord, UserStore};
use crate::token::{spec_token, spec_verify, TokenClaims, TokenCodec};
use vstd::prelude::*;

verus! {

/// How long a password-reset grant lives, in seconds: thirty minutes.
pub const RESET_TTL_SECONDS: u64 = 1800;

/// Relies on uuid::Uuid::new_v4 and its hyphenated string form: a fresh
/// random 128-bit token, cryptographically unguessable. Nothing is promised
/// of the value.
#[verifier::external_body]
fn fresh_reset_token() -> (r: String) {
    uuid::Uuid::new_v4().to_string()
}

/// A syntactically plausible email: some separator with at least one
/// character on each side.
pub open spec fn spec_valid_email(e: Seq<char>) -> bool {
    e.len() >= 3 && exists|i: int| 1 <= i < e.len() - 1 && #[trigger] e[i] == '@'
}

/// A well-shaped signup request: plausible email, no empty field.
pub open spec fn spec_valid_signup(
    email: Seq<char>,
    password: Seq<char>,
    first_name: Seq<char>,
    last_name: Seq<char>,
) -> bool {
    spec_valid_email(email) && password.len() > 0 && first_name.len() > 0 && last_name.len() > 0
}

/// Checks an email's shape.
#[verifier::loop_isolation(false)]
pub fn valid_email(s: &str) -> (r: bool)
    ensures
        r == spec_valid_email(s@),
{
    let n: usize = s.unicode_len();
    if n < 3 {
        return false;
    }
    let mut i: usize = 1;
    while i < n - 1
        invariant
            1 <= i <= n - 1,
            forall|j: int| 1 <= j < i ==> s@[j] != '@',
        decreases n - 1 - i,
    {
        if s.get_char(i) == '@' {
            return true;
        }
        i = i + 1;
    }
    false
}

/// Whether login must succeed: a stored user has this email, an intact
/// hash, and the hash matches the password.
pub open spec fn spec_login_ok(rows: Seq<UserRecord>, email: Seq<char>, password: Seq<char>) -> bool {
    exists|i: int|
        0 <= i < rows.len() && #[trigger] rows[i].email@ == email && hash_wellformed(
            rows[i].password_hash@,
        ) && hash_matches(rows[i].password_hash@, password)
}

/// Which error login reports, if any: unknown email and wrong password are
/// the same `Unauthorized`; a corrupted stored hash is a store error.
pub open spec fn spec_login_err(
    rows: Seq<UserRecord>,
    email: Seq<char>,
    password: Seq<char>,
) -> Option<AuthError> {
    if !has_email(rows, email) {
        Some(AuthError::Unauthorized)
    } else if !hash_wellformed(rows[email_index(rows, email)].password_hash@) {
        Some(AuthError::Store)
    } else if !hash_matches(rows[email_index(rows, email)].password_hash@, password) {
        Some(AuthError::Unauthorized)
    } else {
        None
    }
}

/// What token validation decides at time `now`: the identity the token was
/// issued for, if the token is genuine and unexpired and that user exists
/// and is active; otherwise `Unauthorized`, whatever the reason.
pub open spec fn spec_validate(
    rows: Seq<UserRecord>,
    secret: Seq<u8>,
    tok: Seq<u8>,
    now: u128,
) -> Result<u128, AuthError> {
    match spec_verify(secret, tok, now) {
        Err(_) => Err(AuthError::Unauthorized),
        Ok(c) => if !has_id(rows, c.sub) {
            Err(AuthError::Unauthorized)
        } else if !rows[id_index(rows, c.sub)].is_active {
            Err(AuthError::Unauthorized)
        } else {
            Ok(c.sub)
        },
    }
}

/// The confirmation message of a completed signup.
pub open spec fn signup_message() -> Seq<char> {
    "User signed up successfully"@
}

/// The uniform answer of forgotten-password initiation.
pub open spec fn forgot_message() -> Seq<char> {
    "If an account with that email exists, a password reset link has been sent."@
}

/// The confirmation message of a completed password reset.
pub open spec fn reset_message() -> Seq<char> {
    "Password reset successfully"@
}

/// The message accompanying a valid token.
pub open spec fn validate_message() -> Seq<char> {
    "Token is valid"@
}

/// The answer to account creation.
#[derive(Debug)]
pub struct SignUpResponse {
    pub success: bool,
    pub message: String,
    pub user: PublicUser,
}

/// The answer to a successful login.
#[derive(Debug)]
pub struct LoginResponse {
    pub access_token: Vec<u8>,
    pub refresh_token: Vec<u8>,
    /// The configured access-token lifetime, in seconds.
    pub expires_in: u64,
    pub user: PublicUser,
}

/// The caller-facing answer to forgotten-password initiation: identical
/// whether or not the email is known.
#[derive(Debug, PartialEq, Eq)]
pub struct ForgotPasswordResponse {
    pub success: bool,
    pub message: String,
}

/// What forgotten-password initiation produces: the uniform caller-facing
/// response, and, when the email is known, the reset token to hand to the
/// out-of-band notifier.
#[derive(Debug)]
pub struct ForgotPasswordOutcome {
    pub response: ForgotPasswordResponse,
    pub reset_token: Option<String>,
}

/// The answer to a completed password reset.
#[derive(Debug, PartialEq, Eq)]
pub struct ResetPasswordResponse {
    pub success: bool,
    pub message: String,
}

/// The answer to validating a live token.
#[derive(Debug, PartialEq, Eq)]
pub struct ValidateTokenResponse {
    pub valid: bool,
    pub user: PublicUser,
    pub message: String,
}

/// The lifecycle manager. It holds no state of its own beyond the injected
/// stores, codec and token lifetimes; each operation is a function of its
/// inputs and the stores' contents.
pub struct MyAuthService {
    pub users: UserStore,
    pub sessions: SessionStore,
    pub codec: TokenCodec,
    /// Access-token lifetime, in seconds.
    pub access_ttl: u64,
    /// Refresh-token lifetime, in seconds.
    pub refresh_ttl: u64,
}

impl MyAuthService {
    /// Both stores satisfy their invariants.
    pub open spec fn wf(&self) -> bool {
        self.users.wf() && self.sessions.wf()
    }

    /// A service over empty stores, signing with `secret`.
    pub fn new(secret: Vec<u8>, access_ttl: u64, refresh_ttl: u64) -> (r: MyAuthService)
        ensures
            r.wf(),
            r.users.rows() =~= Seq::<UserRecord>::empty(),
            r.sessions.refresh_rows().len() == 0,
            r.sessions.reset_rows().len() == 0,
            r.codec.secret_view() == secret@,
            r.access_ttl == access_ttl,
            r.refresh_ttl == refresh_ttl,
    {
        MyAuthService {
            users: UserStore::new(),
            sessions: SessionStore::new(),
            codec: TokenCodec::new(secret),
            access_ttl,
            refresh_ttl,
        }
    }

    /// Creates an account: validates the request shape, hashes the
    /// password, and inserts the user with `active = true`. Fails with
    /// `AlreadyExists` exactly when the email is taken. On success, a login
    /// with the same credentials is owed success.
    pub fn sign_up(
        &mut self,
        email: &String,
        password: &String,
        first_name: &String,
        last_name: &String,
    ) -> (r: Result<SignUpResponse, AuthError>)
        requires
            old(self).wf(),
        ensures
            final(self).wf(),
            r == Err::<SignUpResponse, AuthError>(AuthError::Validation) <==> !spec_valid_signup(
                email@,
                password@,
                first_name@,
                last_name@,
            ),
            r is Err ==> *final(self) == *old(self) && (r == Err::<SignUpResponse, AuthError>(
                AuthError::Validation,
            ) || r == Err::<SignUpResponse, AuthError>(AuthError::AlreadyExists) || r == Err::<
                SignUpResponse,
                AuthError,
            >(AuthError::Internal)),
            r == Err::<SignUpResponse, AuthError>(AuthError::AlreadyExists) ==> has_email(
                old(self).users.rows(),
                email@,
            ),
            spec_valid_signup(email@, password@, first_name@, last_name@) && !has_email(
                old(self).users.rows(),
                email@,
            ) ==> r is Ok || r == Err::<SignUpResponse, AuthError>(AuthError::Internal),
            r matches Ok(resp) ==> {
                let rows = old(self).users.rows();
                let rec = final(self).users.rows().last();
                &&& !has_email(rows, email@)
                &&& final(self).users.rows().len() == rows.len() + 1
                &&& forall|j: int| 0 <= j < rows.len() ==> final(self).users.rows()[j] == rows[j]
                &&& rec.id == rows.len() as u128
                &&& rec.email@ == email@
                &&& rec.first_name@ == first_name@
                &&& rec.last_name@ == last_name@
                &&& rec.is_active
                &&& rec.last_login is None
                &&& hash_wellformed(rec.password_hash@)
                &&& hash_matches(rec.password_hash@, password@)
                &&& spec_login_ok(final(self).users.rows(), email@, password@)
                &&& final(self).sessions == old(self).sessions
                &&& resp.success
                &&& resp.message@ == signup_message()
                &&& resp.user.id == rec.id
                &&& resp.user.email@ == email@
                &&& resp.user.first_name@ == first_name@
                &&& resp.user.last_name@ == last_name@
            },
    {
        let shape_ok = valid_email(email.as_str()) && !password.as_str().is_empty()
            && !first_name.as_str().is_empty() && !last_name.as_str().is_empty();
        if !shape_ok {
            return Err(AuthError::Validation);
        }
        let hashed = match hash_password(password.as_str()) {
            Ok(h) => h,
            Err(e) => {
                return Err(e);
            },
        };
        let created = match self.users.create(email, hashed, first_name, last_name) {
            Ok(u) => u,
            Err(e) => {
                return Err(e);
            },
        };
        proof {
            let rows = self.users.rows();
            let k = rows.len() - 1;
            assert(rows[k].email@ == email@ && hash_wellformed(rows[k].password_hash@)
                && hash_matches(rows[k].password_hash@, password@));
        }
        Ok(
            SignUpResponse {
                success: true,
                message: "User signed up successfully".to_owned(),
                user: created,
            },
        )
    }

    /// Logs a user in: an unknown email and a wrong password are rejected
    /// with one and the same error; a corrupted stored hash is a store
    /// error. On success, issues an access token and a refresh token,
    /// registers the refresh token under the user's identity with its
    /// remaining lifetime, and records the login time.
    pub fn login(&mut self, email: &String, password: &String, now: u64) -> (r: Result<
        LoginResponse,
        AuthError,
    >)
        requires
            old(self).wf(),
        ensures
            final(self).wf(),
            final(self).codec == old(self).codec && final(self).access_ttl == old(self).access_ttl
                && final(self).refresh_ttl == old(self).refresh_ttl,
            r is Err <==> spec_login_err(old(self).users.rows(), email@, password@) is Some,
            r matches Err(e) ==> Some(e) == spec_login_err(old(self).users.rows(), email@, password@)
                && *final(self) == *old(self),
            r matches Ok(resp) ==> {
                let rows = old(self).users.rows();
                let i = email_index(rows, email@);
                let u = rows[i];
                let secret = old(self).codec.secret_view();
                let access_exp = (now as u128 + old(self).access_ttl as u128) as u128;
                let refresh_exp = (now as u128 + old(self).refresh_ttl as u128) as u128;
                &&& spec_login_ok(rows, email@, password@)
                &&& resp.user.id == u.id
                &&& resp.user.email@ == u.email@
                &&& resp.user.first_name@ == u.first_name@
                &&& resp.user.last_name@ == u.last_name@
                &&& resp.expires_in == old(self).access_ttl
                &&& resp.access_token@ == spec_token(secret, u.id, now as u128, access_exp)
                &&& resp.refresh_token@ == spec_token(secret, u.id, now as u128, refresh_exp)
                &&& forall|t: u128|
                    t < access_exp ==> #[trigger] spec_verify(secret, resp.access_token@, t)
                        == Ok::<TokenClaims, crate::errors::TokenError>(
                        TokenClaims { sub: u.id, iat: now as u128, exp: access_exp },
                    )
                &&& final(self).users.rows() == rows.update(i, with_last_login(u, now))
                &&& final(self).sessions.reset_rows() == old(self).sessions.reset_rows()
                &&& exists|tok: Vec<u8>|
                    tok@ == resp.refresh_token@ && final(self).sessions.refresh_rows()
                        == #[trigger] refresh_put(
                        old(self).sessions.refresh_rows(),
                        RefreshEntry { user_id: u.id, token: tok, expires_at: refresh_exp },
                    )
            },
    {
        let found = self.users.find_by_email(email);
        let idx = match found {
            Some(i) => i,
            None => {
                return Err(AuthError::Unauthorized);
            },
        };
        proof {
            let rows = self.users.rows();
            assert(has_email(rows, email@));
            let k = email_index(rows, email@);
            assert(0 <= k < rows.len() && rows[k].email@ == email@);
            assert(k == idx);
        }
        let user_id: u128;
        let matched: bool;
        {
            let user = self.users.row_at(idx);
            user_id = user.id;
            matched = match check_password(user.password_hash.as_str(), password.as_str()) {
                Ok(b) => b,
                Err(e) => {
                    return Err(e);
                },
            };
        }
        if !matched {
            return Err(AuthError::Unauthorized);
        }
        let (access_token, _access_exp) = self.codec.issue(user_id, now, self.access_ttl);
        let (refresh_token, refresh_exp) = self.codec.issue(user_id, now, self.refresh_ttl);
        let stored_token = copy_bytes(&refresh_token);
        let ghost st = stored_token;
        let ghost old_refresh = self.sessions.refresh_rows();
        self.sessions.put_refresh(user_id, stored_token, refresh_exp);
        self.users.update_last_login(user_id, now);
        proof {
            let rows = old(self).users.rows();
            let i = email_index(rows, email@);
            assert(0 <= i < rows.len() && rows[i].email@ == email@);
            assert(i == idx);
            assert(rows[idx as int].id == idx as u128);
            assert(user_id == idx as u128);
            assert(st@ == refresh_token@);
            assert(old_refresh == old(self).sessions.refresh_rows());
            assert(self.sessions.refresh_rows() == refresh_put(
                old(self).sessions.refresh_rows(),
                RefreshEntry { user_id: user_id, token: st, expires_at: refresh_exp },
            ));
            assert(self.users.rows() == rows.update(i, with_last_login(rows[i], now)));
            assert(spec_login_ok(rows, email@, password@)) by {
                assert(rows[i].email@ == email@ && hash_wellformed(rows[i].password_hash@)
                    && hash_matches(rows[i].password_hash@, password@));
            }
        }
        let user = self.users.row_at(idx);
        Ok(
            LoginResponse {
                access_token,
                refresh_token,
                expires_in: self.access_ttl,
                user: PublicUser {
                    id: user.id,
                    email: user.email.clone(),
                    first_name: user.first_name.clone(),
                    last_name: user.last_name.clone(),
                },
            },
        )
    }

    /// Initiates a forgotten-password flow. For a known email a fresh
    /// opaque reset token is stored for thirty minutes and handed to the
    /// notifier; for an unknown email nothing is written. The caller-facing
    /// response is identical in both cases.
    pub fn forgot_password(&mut self, email: &String, now: u64) -> (r: ForgotPasswordOutcome)
        requires
            old(self).wf(),
        ensures
            final(self).wf(),
            r.response.success == true,
            r.response.message@ == forgot_message(),
            !has_email(old(self).users.rows(), email@) ==> *final(self) == *old(self)
                && r.reset_token is None,
            has_email(old(self).users.rows(), email@) ==> {
                let rows = old(self).users.rows();
                let uid = rows[email_index(rows, email@)].id;
                &&& final(self).users == old(self).users
                &&& final(self).sessions.refresh_rows() == old(self).sessions.refresh_rows()
                &&& r.reset_token matches Some(t) && final(self).sessions.reset_rows()
                    == reset_put(
                    old(self).sessions.reset_rows(),
                    ResetEntry {
                        token: t,
                        user_id: uid,
                        expires_at: (now as u128 + RESET_TTL_SECONDS as u128) as u128,
                    },
                )
            },
    {
        let found = self.users.find_by_email(email);
        let idx = match found {
            Some(i) => i,
            None => {
                return ForgotPasswordOutcome {
                    response: ForgotPasswordResponse {
                        success: true,
                        message:
                            "If an account with that email exists, a password reset link has been sent.".to_owned(),
                    },
                    reset_token: None,
                };
            },
        };
        proof {
            let rows = self.users.rows();
            let k = email_index(rows, email@);
            assert(0 <= k < rows.len() && rows[k].email@ == email@);
            assert(k == idx);
        }
        let user_id: u128 = self.users.row_at(idx).id;
        let token = fresh_reset_token();
        let notified = token.clone();
        self.sessions.put_reset(token, user_id, now as u128 + RESET_TTL_SECONDS as u128);
        ForgotPasswordOutcome {
            response: ForgotPasswordResponse {
                success: true,
                message:
                    "If an account with that email exists, a password reset link has been sent.".to_owned(),
            },
            reset_token: Some(notified),
        }
    }

    /// Resets a password with a reset token. An unknown or expired token is
    /// a `BadRequest`; a live token has the granted user's hash overwritten
    /// with a hash of the new password. The grant itself expires only by
    /// time, as the backing cache would have it.
    pub fn reset_password(&mut self, token: &String, new_password: &String, now: u64) -> (r: Result<
        ResetPasswordResponse,
        AuthError,
    >)
        requires
            old(self).wf(),
        ensures
            final(self).wf(),
            r == Err::<ResetPasswordResponse, AuthError>(AuthError::BadRequest) <==> !live_reset(
                old(self).sessions.reset_rows(),
                token@,
                now as u128,
            ),
            r is Err ==> *final(self) == *old(self) && (r == Err::<ResetPasswordResponse, AuthError>(
                AuthError::BadRequest,
            ) || r == Err::<ResetPasswordResponse, AuthError>(AuthError::Internal)),
            r matches Ok(resp) ==> {
                let rows = old(self).users.rows();
                let uid = reset_user(old(self).sessions.reset_rows(), token@, now as u128);
                &&& live_reset(old(self).sessions.reset_rows(), token@, now as u128)
                &&& final(self).sessions == old(self).sessions
                &&& resp.success
                &&& resp.message@ == reset_message()
                &&& uid < rows.len() ==> {
                    let updated = final(self).users.rows()[uid as int];
                    &&& final(self).users.rows().len() == rows.len()
                    &&& forall|j: int|
                        0 <= j < rows.len() && j != uid ==> final(self).users.rows()[j] == rows[j]
                    &&& updated == with_hash(rows[uid as int], updated.password_hash)
                    &&& hash_wellformed(updated.password_hash@)
                    &&& hash_matches(updated.password_hash@, new_password@)
                }
                &&& uid >= rows.len() ==> final(self).users == old(self).users
            },
    {
        let uid = match self.sessions.get_reset(token, now) {
            Some(u) => u,
            None => {
                return Err(AuthError::BadRequest);
            },
        };
        let hashed = match hash_password(new_password.as_str()) {
            Ok(h) => h,
            Err(e) => {
                return Err(e);
            },
        };
        self.users.update_password(uid, hashed);
        Ok(
            ResetPasswordResponse {
                success: true,
                message: "Password reset successfully".to_owned(),
            },
        )
    }

    /// Validates an access token: any verification failure, an unknown
    /// subject, and an inactive subject all yield one `Unauthorized`. The
    /// subject is re-fetched so deactivation takes effect before the
    /// token's natural expiry.
    pub fn validate_token(&self, access_token: &Vec<u8>, now: u64) -> (r: Result<
        ValidateTokenResponse,
        AuthError,
    >)
        requires
            self.wf(),
        ensures
            r is Err <==> spec_validate(
                self.users.rows(),
                self.codec.secret_view(),
                access_token@,
                now as u128,
            ) is Err,
            r is Err ==> r == Err::<ValidateTokenResponse, AuthError>(AuthError::Unauthorized),
            r matches Ok(resp) ==> {
                let rows = self.users.rows();
                let v = spec_validate(rows, self.codec.secret_view(), access_token@, now as u128);
                let u = rows[id_index(rows, v->Ok_0)];
                &&& v is Ok
                &&& resp.valid
                &&& resp.message@ == validate_message()
                &&& resp.user.id == u.id
                &&& resp.user.email@ == u.email@
                &&& resp.user.first_name@ == u.first_name@
                &&& resp.user.last_name@ == u.last_name@
            },
    {
        let claims = match self.codec.verify(access_token, now) {
            Ok(c) => c,
            Err(_) => {
                return Err(AuthError::Unauthorized);
            },
        };
        let user = match self.users.find_by_id(claims.sub) {
            Some(u) => u,
            None => {
                return Err(AuthError::Unauthorized);
            },
        };
        let n: usize = self.users.len();
        proof {
            let rows = self.users.rows();
            assert(rows.len() == n);
            assert(has_id(rows, claims.sub)) by {
                assert(rows[claims.sub as int].id == claims.sub);
            }
            let k = id_index(rows, claims.sub);
            assert(0 <= k < rows.len() && rows[k].id == claims.sub);
            assert(rows[k].id == k as u128);
            assert(k as u128 == claims.sub);
            assert(k == claims.sub as int);
        }
        if !user.is_active {
            return Err(AuthError::Unauthorized);
        }
        Ok(
            ValidateTokenResponse {
                valid: true,
                user: PublicUser {
                    id: user.id,
                    email: user.email.clone(),
                    first_name: user.first_name.clone(),
                    last_name: user.last_name.clone(),
                },
                message: "Token is valid".to_owned(),
            },
        )
    }
}

/// A byte-for-byte copy of a vector.
fn copy_bytes(v: &Vec<u8>) -> (r: Vec<u8>)
    ensures
        r@ == v@,
{
    let mut out: Vec<u8> = Vec::new();
    let n: usize = v.len();
    let mut i: usize = 0;
    while i < n
        invariant
            i <= n,
            n == v@.len(),
            out@ == v@.subrange(0, i as int),
        decreases n - i,
    {
        let b: u8 = v[i];
        out.push(b);
        proof {
            assert(out@ =~= v@.subrange(0, i + 1));
        }
        i = i + 1;
    }
    proof {
        assert(v@.subrange(0, n as int) =~= v@);
    }
    out
}

} // verus!
