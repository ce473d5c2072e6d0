//! Signed, expiring tokens carrying a subject identity. A token is the
//! hex-encoded claim set (subject, issued-at, expiry) followed by an
//! HMAC-SHA-256 tag over that payload, keyed with the service secret.
//! Verification distinguishes a malformed token, a bad signature, and an
//! expired token.

use crate::errors::TokenError;
use crate::hex::{
    all_hex, hex_decode, hex_encode, hex_le, hex_val, is_hex_digit, lemma_hex_le_shape,
    lemma_hex_round_trip, lemma_hex_val_bound, lemma_u128_fits, HEX_WIDTH,
};
use hmac::KeyInit;
use hmac::Mac;
use vstd::prelude::*;

verus! {

/// The length in bytes of the hex-encoded claim payload.
pub const PAYLOAD_LEN: usize = 96;

/// The length in bytes of the HMAC-SHA-256 tag.
pub const TAG_LEN: usize = 32;

/// The length in bytes of a well-formed token.
pub const TOKEN_LEN: usize = 128;

/// The HMAC-SHA-256 tag for a key and a message. The tag is a pure function
/// of the two arguments; nothing else is assumed of it here.
pub uninterp spec fn mac_of(key: Seq<u8>, msg: Seq<u8>) -> Seq<u8>;

/// Relies on hmac::Hmac over sha2::Sha256: the tag depends on the key and
/// the message alone and is exactly 32 bytes. Keys of any length are
/// accepted.
#[verifier::external_body]
fn hmac_sha256(key: &[u8], msg: &[u8]) -> (r: Vec<u8>)
    ensures
        r@ == mac_of(key@, msg@),
        r@.len() == TAG_LEN,
{
    let mut m = <hmac::Hmac<sha2::Sha256> as KeyInit>::new_from_slice(key)
        .expect("HMAC accepts keys of any length");
    m.update(msg);
    m.finalize().into_bytes().to_vec()
}

/// The claim set carried inside a signed token.
#[derive(Clone, Copy, Debug, PartialEq, Eq, Structural)]
pub struct TokenClaims {
    /// The subject: the user this token was issued for.
    pub sub: u128,
    /// When the token was issued, in seconds.
    pub iat: u128,
    /// When the token expires, in seconds. The token is live strictly
    /// before this instant.
    pub exp: u128,
}

/// The hex-encoded claim payload: subject, issued-at, expiry.
pub open spec fn token_payload(sub: u128, iat: u128, exp: u128) -> Seq<u8> {
    hex_le(sub as int, HEX_WIDTH as nat) + hex_le(iat as int, HEX_WIDTH as nat) + hex_le(
        exp as int,
        HEX_WIDTH as nat,
    )
}

/// The byte string of the token issued for the given claims.
pub open spec fn spec_token(secret: Seq<u8>, sub: u128, iat: u128, exp: u128) -> Seq<u8> {
    token_payload(sub, iat, exp) + mac_of(secret, token_payload(sub, iat, exp))
}

/// What verifying `tok` at time `now` with `secret` yields: the claims, or
/// the first rejection reason among malformed shape, signature mismatch,
/// and elapsed expiry.
pub open spec fn spec_verify(secret: Seq<u8>, tok: Seq<u8>, now: u128) -> Result<
    TokenClaims,
    TokenError,
> {
    if tok.len() != TOKEN_LEN || !all_hex(tok.subrange(0, PAYLOAD_LEN as int)) {
        Err(TokenError::Malformed)
    } else if tok.subrange(PAYLOAD_LEN as int, TOKEN_LEN as int) != mac_of(
        secret,
        tok.subrange(0, PAYLOAD_LEN as int),
    ) {
        Err(TokenError::BadSignature)
    } else if hex_val(tok.subrange(2 * HEX_WIDTH as int, 3 * HEX_WIDTH as int)) <= now {
        Err(TokenError::Expired)
    } else {
        Ok(
            TokenClaims {
                sub: hex_val(tok.subrange(0, HEX_WIDTH as int)) as u128,
                iat: hex_val(tok.subrange(HEX_WIDTH as int, 2 * HEX_WIDTH as int)) as u128,
                exp: hex_val(tok.subrange(2 * HEX_WIDTH as int, 3 * HEX_WIDTH as int)) as u128,
            },
        )
    }
}

/// Signs and verifies tokens with a symmetric secret.
pub struct TokenCodec {
    secret: Vec<u8>,
}

impl TokenCodec {
    /// The signing secret, for contracts.
    pub closed spec fn secret_view(&self) -> Seq<u8> {
        self.secret@
    }

    /// A codec signing with the given secret.
    pub fn new(secret: Vec<u8>) -> (r: TokenCodec)
        ensures
            r.secret_view() == secret@,
    {
        TokenCodec { secret }
    }

    /// Issues a token for `subject` at time `now` that expires `ttl`
    /// seconds later. The token verifies to exactly these claims at any
    /// time strictly before the expiry, and is rejected as expired from
    /// the expiry on.
    pub fn issue(&self, subject: u128, now: u64, ttl: u64) -> (r: (Vec<u8>, u128))
        ensures
            r.1 == now as u128 + ttl as u128,
            r.0@ == spec_token(self.secret_view(), subject, now as u128, r.1),
            forall|t: u128|
                t < r.1 ==> #[trigger] spec_verify(self.secret_view(), r.0@, t) == Ok::<
                    TokenClaims,
                    TokenError,
                >(TokenClaims { sub: subject, iat: now as u128, exp: r.1 }),
            forall|t: u128|
                t >= r.1 ==> #[trigger] spec_verify(self.secret_view(), r.0@, t) == Err::<
                    TokenClaims,
                    TokenError,
                >(TokenError::Expired),
    {
        let exp: u128 = now as u128 + ttl as u128;
        let mut payload: Vec<u8> = Vec::new();
        hex_encode(subject, &mut payload);
        hex_encode(now as u128, &mut payload);
        hex_encode(exp, &mut payload);
        proof {
            assert(payload@ =~= token_payload(subject, now as u128, exp));
        }
        let mut token = payload;
        let mut tag = hmac_sha256(self.secret.as_slice(), token.as_slice());
        let ghost tag_seq = tag@;
        token.append(&mut tag);
        proof {
            let secret = self.secret_view();
            let pay = token_payload(subject, now as u128, exp);
            lemma_hex_le_shape(subject as int, HEX_WIDTH as nat);
            lemma_hex_le_shape(now as int, HEX_WIDTH as nat);
            lemma_hex_le_shape(exp as int, HEX_WIDTH as nat);
            assert(pay.len() == PAYLOAD_LEN);
            assert(token@ == pay + mac_of(secret, pay));
            assert(token@.len() == TOKEN_LEN);
            assert(token@.subrange(0, PAYLOAD_LEN as int) =~= pay);
            assert(token@.subrange(PAYLOAD_LEN as int, TOKEN_LEN as int) =~= mac_of(secret, pay));
            assert(all_hex(pay)) by {
                assert forall|i: int| 0 <= i < pay.len() implies is_hex_digit(#[trigger] pay[i]) by {
                    if i < HEX_WIDTH {
                        assert(pay[i] == hex_le(subject as int, HEX_WIDTH as nat)[i]);
                    } else if i < 2 * HEX_WIDTH {
                        assert(pay[i] == hex_le(now as int, HEX_WIDTH as nat)[i - HEX_WIDTH]);
                    } else {
                        assert(pay[i] == hex_le(exp as int, HEX_WIDTH as nat)[i - 2 * HEX_WIDTH]);
                    }
                }
            }
            assert(token@.subrange(0, HEX_WIDTH as int) =~= hex_le(subject as int, HEX_WIDTH as nat));
            assert(token@.subrange(HEX_WIDTH as int, 2 * HEX_WIDTH as int) =~= hex_le(
                now as int,
                HEX_WIDTH as nat,
            ));
            assert(token@.subrange(2 * HEX_WIDTH as int, 3 * HEX_WIDTH as int) =~= hex_le(
                exp as int,
                HEX_WIDTH as nat,
            ));
            lemma_u128_fits();
            lemma_hex_round_trip(subject as int, HEX_WIDTH as nat);
            lemma_hex_round_trip(now as int, HEX_WIDTH as nat);
            lemma_hex_round_trip(exp as int, HEX_WIDTH as nat);
        }
        (token, exp)
    }

    /// Verifies a token at time `now`, yielding its claims or the exact
    /// rejection reason of `spec_verify`.
    #[verifier::loop_isolation(false)]
    pub fn verify(&self, token: &Vec<u8>, now: u64) -> (r: Result<TokenClaims, TokenError>)
        ensures
            r == spec_verify(self.secret_view(), token@, now as u128),
    {
        if token.len() != TOKEN_LEN {
            return Err(TokenError::Malformed);
        }
        // Check that the payload is all lowercase hex digits.
        let mut i: usize = 0;
        while i < PAYLOAD_LEN
            invariant
                i <= PAYLOAD_LEN,
                token@.len() == TOKEN_LEN,
                forall|j: int| 0 <= j < i ==> is_hex_digit(#[trigger] token@[j]),
            decreases PAYLOAD_LEN - i,
        {
            let c: u8 = token[i];
            let ok: bool = (48 <= c && c <= 57) || (97 <= c && c <= 102);
            if !ok {
                proof {
                    assert(!is_hex_digit(token@.subrange(0, PAYLOAD_LEN as int)[i as int]));
                }
                return Err(TokenError::Malformed);
            }
            i = i + 1;
        }
        let ghost payload_seq = token@.subrange(0, PAYLOAD_LEN as int);
        proof {
            assert(all_hex(payload_seq));
        }
        // Recompute the tag over the payload and compare.
        let mut payload: Vec<u8> = Vec::new();
        let mut k: usize = 0;
        while k < PAYLOAD_LEN
            invariant
                k <= PAYLOAD_LEN,
                token@.len() == TOKEN_LEN,
                payload@ == token@.subrange(0, k as int),
            decreases PAYLOAD_LEN - k,
        {
            let b: u8 = token[k];
            payload.push(b);
            proof {
                assert(payload@ =~= token@.subrange(0, k + 1));
            }
            k = k + 1;
        }
        let tag = hmac_sha256(self.secret.as_slice(), payload.as_slice());
        let ghost expected = mac_of(self.secret_view(), payload_seq);
        let mut t: usize = 0;
        while t < TAG_LEN
            invariant
                t <= TAG_LEN,
                token@.len() == TOKEN_LEN,
                tag@ == expected,
                tag@.len() == TAG_LEN,
                forall|j: int| 0 <= j < t ==> token@[PAYLOAD_LEN + j] == #[trigger] tag@[j],
            decreases TAG_LEN - t,
        {
            let a: u8 = token[PAYLOAD_LEN + t];
            let b: u8 = tag[t];
            if a != b {
                proof {
                    let stored = token@.subrange(PAYLOAD_LEN as int, TOKEN_LEN as int);
                    assert(stored[t as int] == a);
                    assert(stored != expected) by {
                        if stored == expected {
                            assert(stored[t as int] == expected[t as int]);
                        }
                    }
                    assert(token@.subrange(PAYLOAD_LEN as int, TOKEN_LEN as int) != mac_of(
                        self.secret_view(),
                        token@.subrange(0, PAYLOAD_LEN as int),
                    ));
                }
                return Err(TokenError::BadSignature);
            }
            t = t + 1;
        }
        proof {
            assert(token@.subrange(PAYLOAD_LEN as int, TOKEN_LEN as int) =~= expected);
        }
        // Signature is genuine: decode the claims and check expiry.
        proof {
            assert(payload_seq.subrange(2 * HEX_WIDTH as int, 3 * HEX_WIDTH as int) =~= token@
                .subrange(2 * HEX_WIDTH as int, 3 * HEX_WIDTH as int));
            assert(payload_seq.subrange(0, HEX_WIDTH as int) =~= token@.subrange(
                0,
                HEX_WIDTH as int,
            ));
            assert(payload_seq.subrange(HEX_WIDTH as int, 2 * HEX_WIDTH as int) =~= token@
                .subrange(HEX_WIDTH as int, 2 * HEX_WIDTH as int));
            assert(all_hex(token@.subrange(2 * HEX_WIDTH as int, 3 * HEX_WIDTH as int)));
            assert(all_hex(token@.subrange(0, HEX_WIDTH as int)));
            assert(all_hex(token@.subrange(HEX_WIDTH as int, 2 * HEX_WIDTH as int)));
        }
        let exp: u128 = hex_decode(token, 2 * HEX_WIDTH);
        if exp <= now as u128 {
            return Err(TokenError::Expired);
        }
        let sub: u128 = hex_decode(token, 0);
        let iat: u128 = hex_decode(token, HEX_WIDTH);
        proof {
            lemma_hex_val_bound(token@.subrange(0, HEX_WIDTH as int));
            lemma_hex_val_bound(token@.subrange(HEX_WIDTH as int, 2 * HEX_WIDTH as int));
            lemma_hex_val_bound(token@.subrange(2 * HEX_WIDTH as int, 3 * HEX_WIDTH as int));
        }
        Ok(TokenClaims { sub, iat, exp })
    }
}

} // verus!
