//! Deterministic nonce derivation in the RFC 6979 style: proving draws
//! no external randomness.

use vstd::prelude::*;

use crate::curve::{group_order, scalar_check, scalar_reduce};
use crate::hashes::{hmac, hmac_sha256, sha256, sha256_of};
use crate::nums::{be32_of, be_nat, filled, is_zero_bytes, lemma_be_of_be_nat, push_all};
use crate::VrfError;

verus! {

/// Thirty-two bytes of `0x01`: the initial HMAC chaining value.
pub open spec fn ones32() -> Seq<u8> {
    Seq::new(32, |i: int| 0x01u8)
}

/// Thirty-two bytes of `0x00`: the initial HMAC key.
pub open spec fn zeros32() -> Seq<u8> {
    Seq::new(32, |i: int| 0x00u8)
}

/// One candidate-drawing round: draws `V := HMAC(K, V)` and accepts it
/// when it falls in `[1, n-1]`; otherwise refreshes the pair and tries
/// again, for at most `tries` rounds.
pub open spec fn nonce_from(k: Seq<u8>, v: Seq<u8>, tries: nat) -> Option<Seq<u8>>
    decreases tries,
{
    if tries == 0 {
        None
    } else {
        let cand = hmac_sha256(k, v);
        if 0 < be_nat(cand) < group_order() {
            Some(cand)
        } else {
            let k2 = hmac_sha256(k, cand + seq![0u8]);
            nonce_from(k2, hmac_sha256(k2, cand), (tries - 1) as nat)
        }
    }
}

/// The deterministic nonce drawn from a secret scalar and the hashed
/// input, per RFC 6979 with SHA-256: two seeding rounds bind the key
/// and the reduced input hash, then candidates are drawn until one
/// falls in `[1, n-1]`.
pub open spec fn nonce_spec(sk: Seq<u8>, data: Seq<u8>) -> Option<Seq<u8>> {
    let t = be32_of(be_nat(sha256_of(data)) % group_order());
    let k1 = hmac_sha256(zeros32(), ones32() + seq![0u8] + sk + t);
    let v1 = hmac_sha256(k1, ones32());
    let k2 = hmac_sha256(k1, v1 + seq![1u8] + sk + t);
    let v2 = hmac_sha256(k2, v1);
    nonce_from(k2, v2, 256)
}

/// Draws the RFC 6979 nonce for `sk` and `data`; the result is a scalar
/// in `[1, n-1]`, a function of the arguments alone.
pub fn generate_nonce(sk: &[u8], data: &[u8]) -> (r: Result<Vec<u8>, VrfError>)
    requires
        sk@.len() == 32,
    ensures
        match r {
            Ok(k) => nonce_spec(sk@, data@) == Some(k@) && k@.len() == 32 && 0 < be_nat(k@)
                < group_order(),
            Err(e) => e == VrfError::InternalError && nonce_spec(sk@, data@) is None,
        },
{
    let dh = sha256(data);
    let t = scalar_reduce(dh.as_slice());
    proof {
        lemma_be_of_be_nat(t@);
        assert(t@ == be32_of(be_nat(sha256_of(data@)) % group_order()));
    }
    let mut v = filled(0x01, 32);
    let mut k = filled(0x00, 32);
    proof {
        assert(v@ =~= ones32());
        assert(k@ =~= zeros32());
    }
    let mut seed0: Vec<u8> = Vec::new();
    push_all(&mut seed0, v.as_slice());
    seed0.push(0x00);
    push_all(&mut seed0, sk);
    push_all(&mut seed0, t.as_slice());
    proof {
        assert(seed0@ =~= ones32() + seq![0u8] + sk@ + t@);
    }
    k = hmac(k.as_slice(), seed0.as_slice());
    v = hmac(k.as_slice(), v.as_slice());
    let mut seed1: Vec<u8> = Vec::new();
    push_all(&mut seed1, v.as_slice());
    seed1.push(0x01);
    push_all(&mut seed1, sk);
    push_all(&mut seed1, t.as_slice());
    proof {
        assert(seed1@ =~= v@ + seq![1u8] + sk@ + t@);
    }
    k = hmac(k.as_slice(), seed1.as_slice());
    v = hmac(k.as_slice(), v.as_slice());

    let ghost k2 = k@;
    let ghost v2 = v@;
    let mut tries: usize = 256;
    while tries > 0
        invariant
            v@.len() == 32,
            k@.len() == 32,
            tries <= 256,
            nonce_spec(sk@, data@) == nonce_from(k@, v@, tries as nat),
        decreases tries,
    {
        let cand = hmac(k.as_slice(), v.as_slice());
        let nonzero = !is_zero_bytes(cand.as_slice());
        let in_range = scalar_check(cand.as_slice());
        if nonzero && in_range {
            return Ok(cand);
        }
        let mut refresh: Vec<u8> = Vec::new();
        push_all(&mut refresh, cand.as_slice());
        refresh.push(0x00);
        proof {
            assert(refresh@ =~= cand@ + seq![0u8]);
        }
        k = hmac(k.as_slice(), refresh.as_slice());
        v = hmac(k.as_slice(), cand.as_slice());
        tries = tries - 1;
    }
    Err(VrfError::InternalError)
}

/// The nonce is a function of the secret scalar and the hashed input
/// alone: two drawings agree.
pub proof fn lemma_nonce_deterministic(
    sk: Seq<u8>,
    data: Seq<u8>,
    r1: Option<Seq<u8>>,
    r2: Option<Seq<u8>>,
)
    requires
        r1 == nonce_spec(sk, data),
        r2 == nonce_spec(sk, data),
    ensures
        r1 == r2,
{
}

} // verus!
