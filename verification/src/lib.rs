//! A verifiable random function over secp256k1 with SHA-256 and
//! try-and-increment hashing to the curve: a keyed, deterministic,
//! publicly checkable pseudorandom function. `prove` builds a proof
//! from a secret scalar and a message; `verify` checks it under the
//! public key and derives the output hash.

use vstd::prelude::*;

pub mod codec;
pub mod curve;
pub mod hashes;
pub mod hexcode;
pub mod htc;
pub mod nonce;
pub mod nums;

verus! {

/// The ways a proving or verifying call can fail.
#[derive(Clone, Copy, Debug, PartialEq, Eq, Structural)]
pub enum VrfError {
    /// A textual argument is not well-formed hexadecimal.
    HexError,
    /// A binary argument has the wrong length, encodes no curve point,
    /// or holds a scalar outside its range.
    DecodeError,
    /// A structurally valid proof failed the challenge-equality check.
    InvalidProof,
    /// An internal retry cap was exceeded; practically unreachable.
    InternalError,
}

/// A 16-byte challenge, widened to scalar width with leading zeros.
pub open spec fn pad16(c: Seq<u8>) -> Seq<u8> {
    Seq::new(16, |i: int| 0u8) + c
}

/// The proof that a secret scalar assigns to a message: Gamma is the
/// secret multiple of the hashed-to-curve point, c the challenge over
/// the nonce commitments, and s the response `(k + c*x) mod n`.
pub open spec fn prove_spec(sk: Seq<u8>, alpha: Seq<u8>) -> Result<codec::ProofModel, VrfError> {
    if sk.len() != 32 || nums::be_nat(sk) == 0 || nums::be_nat(sk) >= curve::group_order() {
        Err(VrfError::DecodeError)
    } else {
        match curve::pt_mul_gen(sk) {
            None => Err(VrfError::InternalError),
            Some(pk) => match htc::htc_point(pk, alpha) {
                None => Err(VrfError::InternalError),
                Some(h) => match curve::pt_mul(sk, h) {
                    None => Err(VrfError::InternalError),
                    Some(gamma) => match nonce::nonce_spec(sk, h) {
                        None => Err(VrfError::InternalError),
                        Some(k) => match (curve::pt_mul_gen(k), curve::pt_mul(k, h)) {
                            (Some(u), Some(v)) => {
                                let c = codec::challenge_spec(h, gamma, u, v);
                                let s = nums::be32_of(
                                    (nums::be_nat(k) + nums::be_nat(c) * nums::be_nat(sk))
                                        % curve::group_order(),
                                );
                                Ok(codec::ProofModel { gamma, c, s })
                            },
                            _ => Err(VrfError::InternalError),
                        },
                    },
                },
            },
        }
    }
}

/// The outcome of checking a proof against a public key and a message:
/// the output hash when the recomputed challenge matches, an error
/// naming what failed otherwise.
pub open spec fn verify_spec(pk: Seq<u8>, alpha: Seq<u8>, pi: Seq<u8>) -> Result<
    Seq<u8>,
    VrfError,
> {
    if pk.len() != 33 || !curve::pt_decode_ok(pk) {
        Err(VrfError::DecodeError)
    } else {
        match codec::decode_spec(pi) {
            Err(e) => Err(e),
            Ok(p) => match htc::htc_point(pk, alpha) {
                None => Err(VrfError::InternalError),
                Some(h) => {
                    let cp = pad16(p.c);
                    match (
                        curve::pt_mul_gen(p.s),
                        curve::pt_mul(cp, pk),
                        curve::pt_mul(p.s, h),
                        curve::pt_mul(cp, p.gamma),
                    ) {
                        (Some(sg), Some(cy), Some(sh), Some(cg)) => match (
                            curve::pt_sub(sg, cy),
                            curve::pt_sub(sh, cg),
                        ) {
                            (Some(u), Some(v)) => if codec::challenge_spec(h, p.gamma, u, v)
                                == p.c {
                                Ok(codec::output_spec(p.gamma))
                            } else {
                                Err(VrfError::InvalidProof)
                            },
                            _ => Err(VrfError::InvalidProof),
                        },
                        _ => Err(VrfError::InvalidProof),
                    }
                },
            },
        }
    }
}

/// The challenge scalar is sixteen bytes, so its widened form stays
/// below the group order.
proof fn lemma_pad16_scalar(c: Seq<u8>)
    requires
        c.len() == 16,
    ensures
        pad16(c).len() == 32,
        nums::be_nat(pad16(c)) == nums::be_nat(c),
        nums::be_nat(pad16(c)) < curve::group_order(),
{
    let z = Seq::new(16, |i: int| 0u8);
    nums::lemma_be_nat_zero_prefix(z, c);
    nums::lemma_be_nat_bound(c);
    assert(nums::pow256(16) == 0x100000000000000000000000000000000nat) by {
        reveal_with_fuel(nums::pow256, 17);
    }
}

/// Builds a proof for `message` under the 32-byte secret scalar
/// `secret_key`: rejects a key outside `[1, n-1]` and otherwise
/// computes exactly the proof `prove_spec` names.
pub fn prove_bytes(secret_key: &[u8], message: &[u8]) -> (r: Result<codec::VrfProof, VrfError>)
    ensures
        match r {
            Ok(p) => prove_spec(secret_key@, message@) == Ok::<codec::ProofModel, VrfError>(p@)
                && codec::proof_wf(p@),
            Err(e) => prove_spec(secret_key@, message@) == Err::<codec::ProofModel, VrfError>(e),
        },
{
    if secret_key.len() != 32 {
        return Err(VrfError::DecodeError);
    }
    if nums::is_zero_bytes(secret_key) {
        return Err(VrfError::DecodeError);
    }
    if !curve::scalar_check(secret_key) {
        return Err(VrfError::DecodeError);
    }
    let pk = match curve::point_mul_gen(secret_key) {
        Some(v) => v,
        None => {
            return Err(VrfError::InternalError);
        },
    };
    let h = match htc::hash_to_curve(pk.as_slice(), message) {
        Ok(v) => v,
        Err(_) => {
            return Err(VrfError::InternalError);
        },
    };
    let gamma = match curve::point_mul(secret_key, h.as_slice()) {
        Some(v) => v,
        None => {
            return Err(VrfError::InternalError);
        },
    };
    let k = match nonce::generate_nonce(secret_key, h.as_slice()) {
        Ok(v) => v,
        Err(_) => {
            return Err(VrfError::InternalError);
        },
    };
    let u = match curve::point_mul_gen(k.as_slice()) {
        Some(v) => v,
        None => {
            return Err(VrfError::InternalError);
        },
    };
    let v = match curve::point_mul(k.as_slice(), h.as_slice()) {
        Some(v) => v,
        None => {
            return Err(VrfError::InternalError);
        },
    };
    let c = codec::challenge(h.as_slice(), gamma.as_slice(), u.as_slice(), v.as_slice());
    let mut cpad = nums::filled(0x00, 16);
    nums::push_all(&mut cpad, c.as_slice());
    proof {
        assert(cpad@ =~= pad16(c@));
        lemma_pad16_scalar(c@);
    }
    let cx = curve::scalar_mul(cpad.as_slice(), secret_key);
    let s = curve::scalar_add(k.as_slice(), cx.as_slice());
    proof {
        let n = curve::group_order();
        let kk = nums::be_nat(k@);
        let m = nums::be_nat(c@) * nums::be_nat(secret_key@);
        vstd::arithmetic::div_mod::lemma_small_mod(kk, n);
        vstd::arithmetic::div_mod::lemma_add_mod_noop(kk as int, m as int, n as int);
        assert(nums::be_nat(s@) == (kk + m) % n);
        nums::lemma_be_of_be_nat(s@);
        assert(s@ == nums::be32_of((kk + m) % n));
    }
    let p = codec::VrfProof { gamma, c, s };
    Ok(p)
}

/// Checks a proof against a 33-byte compressed public key and a
/// message; returns the 32-byte output hash exactly when the
/// recomputed challenge matches, and otherwise the error named by
/// `verify_spec`.
pub fn verify_bytes(public_key: &[u8], message: &[u8], pi: &[u8]) -> (r: Result<Vec<u8>, VrfError>)
    ensures
        match r {
            Ok(beta) => verify_spec(public_key@, message@, pi@) == Ok::<Seq<u8>, VrfError>(beta@)
                && beta@.len() == 32,
            Err(e) => verify_spec(public_key@, message@, pi@) == Err::<Seq<u8>, VrfError>(e),
        },
{
    if public_key.len() != 33 {
        return Err(VrfError::DecodeError);
    }
    if !curve::point_check(public_key) {
        return Err(VrfError::DecodeError);
    }
    let p = match codec::decode_proof(pi) {
        Ok(v) => v,
        Err(e) => {
            return Err(e);
        },
    };
    let h = match htc::hash_to_curve(public_key, message) {
        Ok(v) => v,
        Err(_) => {
            return Err(VrfError::InternalError);
        },
    };
    let mut cpad = nums::filled(0x00, 16);
    nums::push_all(&mut cpad, p.c.as_slice());
    proof {
        assert(cpad@ =~= pad16(p.c@));
        lemma_pad16_scalar(p.c@);
    }
    let sg = curve::point_mul_gen(p.s.as_slice());
    let cy = curve::point_mul(cpad.as_slice(), public_key);
    let sh = curve::point_mul(p.s.as_slice(), h.as_slice());
    let cg = curve::point_mul(cpad.as_slice(), p.gamma.as_slice());
    let (sg, cy, sh, cg) = match (sg, cy, sh, cg) {
        (Some(a), Some(b), Some(c2), Some(d)) => (a, b, c2, d),
        _ => {
            return Err(VrfError::InvalidProof);
        },
    };
    let u = curve::point_sub(sg.as_slice(), cy.as_slice());
    let v = curve::point_sub(sh.as_slice(), cg.as_slice());
    let (u, v) = match (u, v) {
        (Some(a), Some(b)) => (a, b),
        _ => {
            return Err(VrfError::InvalidProof);
        },
    };
    let c2 = codec::challenge(h.as_slice(), p.gamma.as_slice(), u.as_slice(), v.as_slice());
    if nums::eq_bytes(c2.as_slice(), p.c.as_slice()) {
        Ok(codec::proof_output(p.gamma.as_slice()))
    } else {
        Err(VrfError::InvalidProof)
    }
}

/// The compressed public key a secret scalar determines, or
/// `DecodeError` for a scalar outside `[1, n-1]`.
pub open spec fn public_key_spec(sk: Seq<u8>) -> Result<Seq<u8>, VrfError> {
    if sk.len() != 32 || nums::be_nat(sk) == 0 || nums::be_nat(sk) >= curve::group_order() {
        Err(VrfError::DecodeError)
    } else {
        match curve::pt_mul_gen(sk) {
            None => Err(VrfError::InternalError),
            Some(pk) => Ok(pk),
        }
    }
}

/// Derives the compressed public key of a 32-byte secret scalar:
/// the scalar multiple of the generator.
pub fn derive_public_key(secret_key: &[u8]) -> (r: Result<Vec<u8>, VrfError>)
    ensures
        match r {
            Ok(pk) => public_key_spec(secret_key@) == Ok::<Seq<u8>, VrfError>(pk@) && pk@.len()
                == 33,
            Err(e) => public_key_spec(secret_key@) == Err::<Seq<u8>, VrfError>(e),
        },
{
    if secret_key.len() != 32 {
        return Err(VrfError::DecodeError);
    }
    if nums::is_zero_bytes(secret_key) {
        return Err(VrfError::DecodeError);
    }
    if !curve::scalar_check(secret_key) {
        return Err(VrfError::DecodeError);
    }
    match curve::point_mul_gen(secret_key) {
        Some(pk) => Ok(pk),
        None => Err(VrfError::InternalError),
    }
}

/// What `prove` returns for hexadecimal arguments: the hex spelling of
/// the encoded proof, or the underlying error.
pub open spec fn prove_hex_spec(secret_key_hex: Seq<u8>, alpha: Seq<u8>) -> Result<
    Seq<u8>,
    VrfError,
> {
    match hexcode::unhex_of(secret_key_hex) {
        None => Err(VrfError::HexError),
        Some(sk) => match prove_spec(sk, alpha) {
            Ok(p) => Ok(hexcode::hex_of(codec::encode_spec(p))),
            Err(e) => Err(e),
        },
    }
}

/// What `verify` returns for hexadecimal arguments: `true` on
/// acceptance, `false` on a cryptographic mismatch, an error for
/// malformed input.
pub open spec fn verify_hex_spec(public_key_hex: Seq<u8>, alpha: Seq<u8>, pi_hex: Seq<u8>) -> Result<
    bool,
    VrfError,
> {
    match (hexcode::unhex_of(public_key_hex), hexcode::unhex_of(pi_hex)) {
        (Some(pk), Some(pi)) => match verify_spec(pk, alpha, pi) {
            Ok(beta) => Ok(true),
            Err(VrfError::InvalidProof) => Ok(false),
            Err(e) => Err(e),
        },
        _ => Err(VrfError::HexError),
    }
}

/// Builds a proof from a hex-spelled secret key and returns it as
/// lowercase hex: the textual form of `prove_bytes`.
pub fn prove(secret_key_hex: &[u8], message: &[u8]) -> (r: Result<Vec<u8>, VrfError>)
    ensures
        match r {
            Ok(pi) => prove_hex_spec(secret_key_hex@, message@) == Ok::<Seq<u8>, VrfError>(pi@),
            Err(e) => prove_hex_spec(secret_key_hex@, message@) == Err::<Seq<u8>, VrfError>(e),
        },
{
    let sk = match hexcode::hex_decode(secret_key_hex) {
        Ok(v) => v,
        Err(e) => {
            return Err(e);
        },
    };
    let p = match prove_bytes(sk.as_slice(), message) {
        Ok(v) => v,
        Err(e) => {
            return Err(e);
        },
    };
    let encoded = codec::encode_proof(&p);
    Ok(hexcode::hex_encode(encoded.as_slice()))
}

/// Checks a hex-spelled proof under a hex-spelled public key: `true`
/// on acceptance, `false` on a cryptographic mismatch, an error only
/// for malformed input.
pub fn verify(public_key_hex: &[u8], message: &[u8], pi_hex: &[u8]) -> (r: Result<bool, VrfError>)
    ensures
        match r {
            Ok(b) => verify_hex_spec(public_key_hex@, message@, pi_hex@) == Ok::<bool, VrfError>(b),
            Err(e) => verify_hex_spec(public_key_hex@, message@, pi_hex@) == Err::<bool, VrfError>(
                e,
            ),
        },
{
    let pk = match hexcode::hex_decode(public_key_hex) {
        Ok(v) => v,
        Err(e) => {
            return Err(e);
        },
    };
    let pi = match hexcode::hex_decode(pi_hex) {
        Ok(v) => v,
        Err(e) => {
            return Err(e);
        },
    };
    match verify_bytes(pk.as_slice(), message, pi.as_slice()) {
        Ok(_) => Ok(true),
        Err(VrfError::InvalidProof) => Ok(false),
        Err(e) => Err(e),
    }
}

/// Proving is deterministic: the proof is a function of the secret
/// key and the message alone, so two computations agree bit for bit,
/// and with them the output hash either one verifies to.
pub proof fn lemma_prove_deterministic(
    sk: Seq<u8>,
    alpha: Seq<u8>,
    r1: Result<codec::ProofModel, VrfError>,
    r2: Result<codec::ProofModel, VrfError>,
)
    requires
        r1 == prove_spec(sk, alpha),
        r2 == prove_spec(sk, alpha),
    ensures
        r1 == r2,
{
}

/// Verifying is deterministic: the accept-or-reject outcome and the
/// output hash are functions of the public key, the message and the
/// proof alone.
pub proof fn lemma_verify_deterministic(
    pk: Seq<u8>,
    alpha: Seq<u8>,
    pi: Seq<u8>,
    r1: Result<Seq<u8>, VrfError>,
    r2: Result<Seq<u8>, VrfError>,
)
    requires
        r1 == verify_spec(pk, alpha, pi),
        r2 == verify_spec(pk, alpha, pi),
    ensures
        r1 == r2,
{
}

} // verus!
