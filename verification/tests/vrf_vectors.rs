//! Known-answer tests for the secp256k1 ciphersuite.

use ecvrf::{prove, verify, verify_bytes, VrfError};

const SK_HEX: &[u8] = b"c9afa9d845ba75166b5c215767b1d6934e50c3db36e89b127b8a622b120f6721";
const PK_HEX: &[u8] = b"032c8c31fc9f990c6b55e3865a184a4ce50e09481f2eaeb3e60ec1cea13a6ae645";
const PI_HEX: &[u8] = b"031f4dbca087a1972d04a07a779b7df1caa99e0f5db2aa21f3aecc4f9e10e85d08748c9fbe6b95d17359707bfb8e8ab0c93ba0c515333adcb8b64f372c535e115ccf66ebf5abe6fadb01b5efb37c0a0ec9";
const PI_ALT_HEX: &[u8] = b"031f4dbca087a1972d04a07a779b7df1caa99e0f5db2aa21f3aecc4f9e10e85d0814faa89697b482daa377fb6b4a8b0191a65d34a6d90a8a2461e5db9205d4cf0bb4b2c31b5ef6997a585a9f1a72517b6f";
const BETA_HEX: &str = "612065e309e937ef46c2ef04d5886b9c6efd2991ac484ec64a9b014366fc5d81";

#[test]
fn prove_known_vector() {
    let pi = prove(SK_HEX, b"sample").unwrap();
    assert_eq!(pi, PI_HEX.to_vec());
}

#[test]
fn verify_known_vector() {
    assert_eq!(verify(PK_HEX, b"sample", PI_HEX), Ok(true));
}

#[test]
fn verify_alternative_proof_same_gamma() {
    assert_eq!(verify(PK_HEX, b"sample", PI_ALT_HEX), Ok(true));
}

#[test]
fn output_hash_known_vector() {
    let pk = hex::decode(std::str::from_utf8(PK_HEX).unwrap()).unwrap();
    let pi = hex::decode(std::str::from_utf8(PI_HEX).unwrap()).unwrap();
    let beta = verify_bytes(&pk, b"sample", &pi).unwrap();
    assert_eq!(hex::encode(&beta), BETA_HEX);
}

#[test]
fn output_agrees_across_proofs_of_same_gamma() {
    // Both valid proofs carry the same Gamma, so both verifications
    // derive the same output hash.
    let pk = hex::decode(std::str::from_utf8(PK_HEX).unwrap()).unwrap();
    let pi1 = hex::decode(std::str::from_utf8(PI_HEX).unwrap()).unwrap();
    let pi2 = hex::decode(std::str::from_utf8(PI_ALT_HEX).unwrap()).unwrap();
    let b1 = verify_bytes(&pk, b"sample", &pi1).unwrap();
    let b2 = verify_bytes(&pk, b"sample", &pi2).unwrap();
    assert_eq!(b1, b2);
    assert_eq!(hex::encode(&b1), BETA_HEX);
}

#[test]
fn prove_is_deterministic() {
    let a = prove(SK_HEX, b"sample").unwrap();
    let b = prove(SK_HEX, b"sample").unwrap();
    assert_eq!(a, b);
}

#[test]
fn round_trip_fresh_message() {
    let pi = prove(SK_HEX, b"test").unwrap();
    assert_eq!(verify(PK_HEX, b"test", &pi), Ok(true));
    let pk = hex::decode(std::str::from_utf8(PK_HEX).unwrap()).unwrap();
    let pi_raw = hex::decode(std::str::from_utf8(&pi).unwrap()).unwrap();
    let b1 = verify_bytes(&pk, b"test", &pi_raw).unwrap();
    let b2 = verify_bytes(&pk, b"test", &pi_raw).unwrap();
    assert_eq!(b1, b2);
}

#[test]
fn reject_wrong_message() {
    assert_eq!(verify(PK_HEX, b"notsample", PI_HEX), Ok(false));
}

#[test]
fn malformed_short_proof_is_decode_error() {
    let pi = b"00000000000000000000000000000000";
    assert_eq!(verify(PK_HEX, b"sample", pi), Err(VrfError::DecodeError));
}
