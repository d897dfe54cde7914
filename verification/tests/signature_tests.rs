//! Tests for the signature error type, the verifier traits and the
//! VOPRF parameter trait, driven by the development key.

use crypto_traits::dev::{checksum, DevHash, DevKey, DevSuite};
use crypto_traits::digest::Update;
use crypto_traits::signature::{DigestVerifier, Error, MultipartVerifier, Verifier};
use crypto_traits::voprf::VoprfParameters;

#[test]
fn new_error_has_no_source() {
    assert!(Error::new().source().is_none());
    assert!(Error::default().source().is_none());
}

#[test]
fn error_message_is_fixed() {
    assert_eq!(Error::new().message(), "signature error");
}

#[test]
fn from_source_keeps_the_source() {
    let err = Error::from_source(String::from("hsm unreachable"));
    assert_eq!(err.source().map(String::as_str), Some("hsm unreachable"));
}

#[test]
fn verifier_accepts_exactly_the_valid_signature() {
    let key = DevKey { key: 5 };
    let msg = b"sign me";
    let good = checksum(msg).wrapping_add(5);
    assert!(key.verify(msg, &good).is_ok());
    assert!(key.verify(msg, &good.wrapping_add(1)).is_err());
    assert!(key.verify(b"sign mf", &good).is_err());
}

#[test]
fn verifier_exact_signature_value() {
    // the checksum of "ab" is 33, so the valid signature under key 5 is 38
    let key = DevKey { key: 5 };
    assert!(key.verify(b"ab", &38).is_ok());
    assert!(key.verify(b"ab", &39).is_err());
}

#[test]
fn multipart_verify_matches_concatenation() {
    let key = DevKey { key: 9 };
    let good = checksum(b"split message").wrapping_add(9);
    let parts: [&[u8]; 3] = [b"split", b" ", b"message"];
    assert!(key.multipart_verify(&parts, &good).is_ok());
    let wrong_parts: [&[u8]; 2] = [b"split", b"message"];
    assert!(key.multipart_verify(&wrong_parts, &good).is_err());
    let empty_parts: [&[u8]; 0] = [];
    assert!(key.multipart_verify(&empty_parts, &checksum(b"").wrapping_add(9)).is_ok());
}

#[test]
fn digest_verifier_checks_the_prehash() {
    let key = DevKey { key: 1 };
    let mut hasher = DevHash::new();
    hasher.update(b"prehashed");
    let good = checksum(b"prehashed").wrapping_add(1);
    assert!(key.verify_digest(hasher.clone(), &good).is_ok());
    assert!(key.verify_digest(hasher, &good.wrapping_add(1)).is_err());
}

#[test]
fn voprf_parameters_expose_their_id() {
    assert_eq!(DevSuite::id(), "dev-suite");
}
