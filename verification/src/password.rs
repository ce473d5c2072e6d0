//! One-way, salted password hashing. Each hash embeds a fresh random salt,
//! so hashing the same password twice yields different strings; checking a
//! password against a corrupted hash is a distinct error, never a plain
//! mismatch.

use crate::errors::AuthError;
use vstd::prelude::*;

verus! {

/// Whether bcrypt accepts `h` as a structurally valid hash string:
/// verification of any password against `h` returns a clean answer exactly
/// when this holds.
pub uninterp spec fn hash_wellformed(h: Seq<char>) -> bool;

/// Whether bcrypt's verification reports that `h` is a hash of password
/// `p`. The answer depends on the two strings alone.
pub uninterp spec fn hash_matches(h: Seq<char>, p: Seq<char>) -> bool;

#[verifier::external_type_specification]
#[verifier::external_body]
pub struct ExBcryptError(bcrypt::BcryptError);

/// Relies on bcrypt::hash at the crate's default cost: it embeds a fresh
/// random salt and the cost in the output, a structurally valid hash that
/// bcrypt::verify reports as matching the hashed password. It fails only
/// when the process cannot obtain randomness.
#[verifier::external_body]
fn bcrypt_hash(password: &str) -> (r: Result<String, bcrypt::BcryptError>)
    ensures
        r matches Ok(h) ==> hash_wellformed(h@) && hash_matches(h@, password@),
{
    bcrypt::hash(password, bcrypt::DEFAULT_COST)
}

/// Relies on bcrypt::verify: a pure function of the password and the hash.
/// It errs exactly when the hash string is not structurally valid, and
/// otherwise reports whether the hash matches the password.
#[verifier::external_body]
fn bcrypt_verify(password: &str, hash: &str) -> (r: Result<bool, bcrypt::BcryptError>)
    ensures
        r is Ok <==> hash_wellformed(hash@),
        r matches Ok(b) ==> b == hash_matches(hash@, password@),
{
    bcrypt::verify(password, hash)
}

/// The outcome of checking a password against a stored hash: a distinct
/// store-corruption error when the hash is structurally invalid, otherwise
/// whether the password matches.
pub open spec fn spec_check_password(h: Seq<char>, p: Seq<char>) -> Result<bool, AuthError> {
    if !hash_wellformed(h) {
        Err(AuthError::Store)
    } else {
        Ok(hash_matches(h, p))
    }
}

/// Hashes a plaintext password with a fresh random salt. The result is a
/// structurally valid hash that matches the password.
pub fn hash_password(password: &str) -> (r: Result<String, AuthError>)
    ensures
        r matches Ok(h) ==> hash_wellformed(h@) && hash_matches(h@, password@),
        r is Err ==> r == Err::<String, AuthError>(AuthError::Internal),
{
    match bcrypt_hash(password) {
        Ok(h) => Ok(h),
        Err(_) => Err(AuthError::Internal),
    }
}

/// Checks a password against a stored hash, in time independent of where a
/// mismatch occurs, surfacing a corrupted stored hash as its own error.
pub fn check_password(hash: &str, password: &str) -> (r: Result<bool, AuthError>)
    ensures
        r == spec_check_password(hash@, password@),
{
    match bcrypt_verify(password, hash) {
        Ok(b) => Ok(b),
        Err(_) => Err(AuthError::Store),
    }
}

} // verus!
