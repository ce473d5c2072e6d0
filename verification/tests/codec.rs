//! Exercises of the password hasher, the token codec, and the hex encoding
//! it writes its claims with.

use auth_core::errors::TokenError;
use auth_core::hex::{hex_decode, hex_encode};
use auth_core::password::{check_password, hash_password};
use auth_core::token::TokenCodec;

#[test]
fn hashing_twice_differs_and_both_verify() {
    let h1 = hash_password("pw123456!").unwrap();
    let h2 = hash_password("pw123456!").unwrap();
    // A fresh random salt is embedded in each call's output.
    assert_ne!(h1, h2);
    assert_eq!(check_password(&h1, "pw123456!"), Ok(true));
    assert_eq!(check_password(&h2, "pw123456!"), Ok(true));
    assert_eq!(check_password(&h1, "pw123456?"), Ok(false));
}

#[test]
fn issue_then_verify_returns_the_claims() {
    let codec = TokenCodec::new(b"shared-secret".to_vec());
    for ttl in [1u64, 60, 900, 86_400] {
        let (token, exp) = codec.issue(42, 1_000, ttl);
        assert_eq!(exp, 1_000 + ttl as u128);
        let claims = codec.verify(&token, 1_000).expect("fresh token verifies");
        assert_eq!(claims.sub, 42);
        assert_eq!(claims.iat, 1_000);
        assert_eq!(claims.exp, exp);
    }
}

#[test]
fn token_is_live_strictly_before_expiry() {
    let codec = TokenCodec::new(b"shared-secret".to_vec());
    let (token, _) = codec.issue(7, 500, 100);
    assert!(codec.verify(&token, 599).is_ok());
    assert_eq!(codec.verify(&token, 600), Err(TokenError::Expired));
    assert_eq!(codec.verify(&token, 601), Err(TokenError::Expired));
}

#[test]
fn tampering_is_detected() {
    let codec = TokenCodec::new(b"shared-secret".to_vec());
    let (token, _) = codec.issue(7, 500, 100);

    // Changing a payload digit to another hex digit breaks the signature.
    let mut forged = token.clone();
    forged[0] = if forged[0] == b'0' { b'1' } else { b'0' };
    assert_eq!(codec.verify(&forged, 500), Err(TokenError::BadSignature));

    // Changing a tag byte breaks the signature.
    let mut clipped_tag = token.clone();
    let last = clipped_tag.len() - 1;
    clipped_tag[last] = clipped_tag[last].wrapping_add(1);
    assert_eq!(codec.verify(&clipped_tag, 500), Err(TokenError::BadSignature));

    // A non-hex payload byte or a wrong length is malformed.
    let mut garbled = token.clone();
    garbled[5] = b'z';
    assert_eq!(codec.verify(&garbled, 500), Err(TokenError::Malformed));
    let mut short = token.clone();
    short.pop();
    assert_eq!(codec.verify(&short, 500), Err(TokenError::Malformed));
    assert_eq!(codec.verify(&Vec::new(), 500), Err(TokenError::Malformed));
}

#[test]
fn another_secret_rejects_the_token() {
    let issuer = TokenCodec::new(b"secret-one".to_vec());
    let imposter = TokenCodec::new(b"secret-two".to_vec());
    let (token, _) = issuer.issue(9, 0, 1_000);
    assert!(issuer.verify(&token, 1).is_ok());
    assert_eq!(imposter.verify(&token, 1), Err(TokenError::BadSignature));
}

#[test]
fn hex_encoding_round_trips() {
    for n in [0u128, 1, 9, 10, 15, 16, 255, 48_879, u128::from(u64::MAX), u128::MAX] {
        let mut buf: Vec<u8> = Vec::new();
        hex_encode(n, &mut buf);
        assert_eq!(buf.len(), 32);
        assert!(buf.iter().all(|b| b.is_ascii_hexdigit()));
        assert_eq!(hex_decode(&buf, 0), n);
    }
}
