//! Behavioural tests: tamper sensitivity, cross-key rejection, the
//! encoding round trip, and each error variant.

use ecvrf::codec::{decode_proof, encode_proof};
use ecvrf::hexcode::{hex_decode, hex_encode};
use ecvrf::htc::hash_to_curve;
use ecvrf::{derive_public_key, prove, prove_bytes, verify, VrfError};

const SK_HEX: &[u8] = b"c9afa9d845ba75166b5c215767b1d6934e50c3db36e89b127b8a622b120f6721";
const PK_HEX: &[u8] = b"032c8c31fc9f990c6b55e3865a184a4ce50e09481f2eaeb3e60ec1cea13a6ae645";
const PI_HEX: &[u8] = b"031f4dbca087a1972d04a07a779b7df1caa99e0f5db2aa21f3aecc4f9e10e85d08748c9fbe6b95d17359707bfb8e8ab0c93ba0c515333adcb8b64f372c535e115ccf66ebf5abe6fadb01b5efb37c0a0ec9";

fn raw(hex_bytes: &[u8]) -> Vec<u8> {
    hex::decode(std::str::from_utf8(hex_bytes).unwrap()).unwrap()
}

#[test]
fn tampered_challenge_is_rejected() {
    // Flip one bit inside the challenge field c (bytes 33..49).
    let mut pi = raw(PI_HEX);
    pi[40] ^= 0x01;
    let pi_hex = hex_encode(&pi);
    assert_eq!(verify(PK_HEX, b"sample", &pi_hex), Ok(false));
}

#[test]
fn tampered_response_is_rejected() {
    // Flip one bit inside the response scalar s (bytes 49..81).
    let mut pi = raw(PI_HEX);
    pi[80] ^= 0x01;
    let pi_hex = hex_encode(&pi);
    assert_eq!(verify(PK_HEX, b"sample", &pi_hex), Ok(false));
}

#[test]
fn tampered_message_bits_are_rejected() {
    for flipped in [b"Sample".to_vec(), b"sampld".to_vec(), b"samqle".to_vec()] {
        assert_eq!(verify(PK_HEX, &flipped, PI_HEX), Ok(false));
    }
}

#[test]
fn cross_key_proof_is_rejected() {
    // A second key pair: same proof, other public key, must fail.
    let mut sk2 = raw(SK_HEX);
    sk2[31] ^= 0x01;
    let pk2 = derive_public_key(&sk2).unwrap();
    let pk2_hex = hex_encode(&pk2);
    assert_ne!(pk2_hex, PK_HEX.to_vec());
    assert_eq!(verify(&pk2_hex, b"sample", PI_HEX), Ok(false));
    // And a proof under the second key fails under the first.
    let pi2 = prove(&hex_encode(&sk2), b"sample").unwrap();
    assert_eq!(verify(&pk2_hex, b"sample", &pi2), Ok(true));
    assert_eq!(verify(PK_HEX, b"sample", &pi2), Ok(false));
}

#[test]
fn tampered_public_key_bits_are_rejected() {
    // Any single-bit change to the public key x-coordinate either
    // leaves the curve (a decode error) or fails the challenge check.
    let pk = raw(PK_HEX);
    for bit in 0..8 {
        let mut pk2 = pk.clone();
        pk2[16] ^= 1u8 << bit;
        let pk2_hex = hex_encode(&pk2);
        let r = verify(&pk2_hex, b"sample", PI_HEX);
        assert!(r == Ok(false) || r == Err(VrfError::DecodeError));
    }
}

#[test]
fn tampered_gamma_bits_are_rejected() {
    let pi = raw(PI_HEX);
    for bit in 0..8 {
        let mut pi2 = pi.clone();
        pi2[10] ^= 1u8 << bit;
        let pi2_hex = hex_encode(&pi2);
        let r = verify(PK_HEX, b"sample", &pi2_hex);
        assert!(r == Ok(false) || r == Err(VrfError::DecodeError));
    }
}

#[test]
fn hash_to_curve_is_deterministic() {
    let pk = raw(PK_HEX);
    let h1 = hash_to_curve(&pk, b"sample").unwrap();
    let h2 = hash_to_curve(&pk, b"sample").unwrap();
    assert_eq!(h1, h2);
    assert_eq!(h1.len(), 33);
}

#[test]
fn proof_encoding_round_trips() {
    let sk = raw(SK_HEX);
    let p = prove_bytes(&sk, b"sample").unwrap();
    let wire = encode_proof(&p);
    assert_eq!(wire.len(), 81);
    let q = decode_proof(&wire).unwrap();
    assert_eq!(p.gamma, q.gamma);
    assert_eq!(p.c, q.c);
    assert_eq!(p.s, q.s);
}

#[test]
fn wrong_length_never_decodes() {
    for n in [0usize, 1, 33, 80, 82, 160] {
        let b = vec![0x02u8; n];
        assert_eq!(decode_proof(&b).unwrap_err(), VrfError::DecodeError);
    }
}

#[test]
fn hex_matches_reference_encoder() {
    let data: Vec<u8> = (0u8..=255).collect();
    let ours = hex_encode(&data);
    let theirs = hex::encode(&data);
    assert_eq!(std::str::from_utf8(&ours).unwrap(), theirs.as_str());
    assert_eq!(hex_decode(&ours).unwrap(), data);
    let upper = theirs.to_uppercase();
    assert_eq!(hex_decode(upper.as_bytes()).unwrap(), data);
}

#[test]
fn odd_length_hex_is_hex_error() {
    assert_eq!(prove(b"abc", b"m").unwrap_err(), VrfError::HexError);
}

#[test]
fn non_digit_hex_is_hex_error() {
    let mut sk = SK_HEX.to_vec();
    sk[10] = b'g';
    assert_eq!(prove(&sk, b"m").unwrap_err(), VrfError::HexError);
    assert_eq!(verify(b"zz", b"m", PI_HEX).unwrap_err(), VrfError::HexError);
}

#[test]
fn short_secret_key_is_decode_error() {
    assert_eq!(prove(b"c9af", b"m").unwrap_err(), VrfError::DecodeError);
}

#[test]
fn zero_secret_key_is_decode_error() {
    let zeros = vec![b'0'; 64];
    assert_eq!(prove(&zeros, b"m").unwrap_err(), VrfError::DecodeError);
}

#[test]
fn oversized_secret_key_is_decode_error() {
    // The group order itself is not a valid secret scalar.
    let order_hex = b"fffffffffffffffffffffffffffffffebaaedce6af48a03bbfd25e8cd0364141";
    assert_eq!(prove(order_hex, b"m").unwrap_err(), VrfError::DecodeError);
}

#[test]
fn invalid_point_tag_is_decode_error() {
    // A leading byte that is no SEC1 tag cannot encode a public key.
    let mut pk = raw(PK_HEX);
    pk[0] = 0xff;
    let pk_hex = hex_encode(&pk);
    assert_eq!(verify(&pk_hex, b"sample", PI_HEX).unwrap_err(), VrfError::DecodeError);
}

#[test]
fn derive_public_key_known_vector() {
    let sk = raw(SK_HEX);
    let pk = derive_public_key(&sk).unwrap();
    assert_eq!(hex_encode(&pk), PK_HEX.to_vec());
}
