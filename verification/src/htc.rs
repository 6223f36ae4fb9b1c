//! Try-and-increment hash-to-curve: hashing with a counter until a
//! digest decodes as a compressed point.

use vstd::prelude::*;

use crate::curve::{point_check, pt_decode_ok};
use crate::hashes::{sha256, sha256_of};
use crate::nums::push_all;
use crate::VrfError;

verus! {

/// The candidate point encoding for one counter value: a fixed sign
/// byte in front of the digest of
/// `suite || 0x01 || public key || message || counter`.
pub open spec fn htc_candidate(pk: Seq<u8>, alpha: Seq<u8>, ctr: u8) -> Seq<u8> {
    seq![2u8] + sha256_of(seq![0xFEu8, 0x01u8] + pk + alpha + seq![ctr])
}

/// The first valid candidate at or after counter `ctr`, or `None` when
/// no counter below 256 yields one.
pub open spec fn htc_from(pk: Seq<u8>, alpha: Seq<u8>, ctr: int) -> Option<Seq<u8>>
    decreases 256 - ctr,
{
    if ctr < 0 || ctr >= 256 {
        None
    } else if pt_decode_ok(htc_candidate(pk, alpha, ctr as u8)) {
        Some(htc_candidate(pk, alpha, ctr as u8))
    } else {
        htc_from(pk, alpha, ctr + 1)
    }
}

/// The point the try-and-increment map assigns to a public key and a
/// message: the first candidate that decodes to a curve point.
pub open spec fn htc_point(pk: Seq<u8>, alpha: Seq<u8>) -> Option<Seq<u8>> {
    htc_from(pk, alpha, 0)
}

/// Maps a message to a curve point by hashing with an incrementing
/// counter until a digest decodes as an x-coordinate; fails only when
/// 256 counters are exhausted, which no practical input reaches.
pub fn hash_to_curve(pk: &[u8], alpha: &[u8]) -> (r: Result<Vec<u8>, VrfError>)
    ensures
        match r {
            Ok(h) => htc_point(pk@, alpha@) == Some(h@) && h@.len() == 33 && pt_decode_ok(h@),
            Err(e) => e == VrfError::InternalError && htc_point(pk@, alpha@) is None,
        },
{
    let mut ctr: usize = 0;
    while ctr < 256
        invariant
            ctr <= 256,
            htc_point(pk@, alpha@) == htc_from(pk@, alpha@, ctr as int),
        decreases 256 - ctr,
    {
        let mut msg: Vec<u8> = Vec::new();
        msg.push(0xFE);
        msg.push(0x01);
        push_all(&mut msg, pk);
        push_all(&mut msg, alpha);
        msg.push(ctr as u8);
        proof {
            assert(msg@ =~= seq![0xFEu8, 0x01u8] + pk@ + alpha@ + seq![ctr as u8]);
        }
        let digest = sha256(msg.as_slice());
        let mut cand: Vec<u8> = Vec::new();
        cand.push(0x02);
        push_all(&mut cand, digest.as_slice());
        proof {
            assert(cand@ =~= htc_candidate(pk@, alpha@, ctr as u8));
        }
        if point_check(cand.as_slice()) {
            return Ok(cand);
        }
        ctr = ctr + 1;
    }
    Err(VrfError::InternalError)
}

/// The counter at which the try-and-increment search first succeeds,
/// starting at `ctr`, or `None` when no counter below 256 does.
pub open spec fn htc_counter_from(pk: Seq<u8>, alpha: Seq<u8>, ctr: int) -> Option<int>
    decreases 256 - ctr,
{
    if ctr < 0 || ctr >= 256 {
        None
    } else if pt_decode_ok(htc_candidate(pk, alpha, ctr as u8)) {
        Some(ctr)
    } else {
        htc_counter_from(pk, alpha, ctr + 1)
    }
}

/// The point the search finds is the candidate at the least counter
/// whose digest decodes, and every earlier counter fails; when no
/// counter succeeds, there is no point.
pub proof fn lemma_htc_counter(pk: Seq<u8>, alpha: Seq<u8>, ctr: int)
    requires
        0 <= ctr <= 256,
    ensures
        match htc_counter_from(pk, alpha, ctr) {
            Some(c) => ctr <= c < 256 && pt_decode_ok(htc_candidate(pk, alpha, c as u8))
                && htc_from(pk, alpha, ctr) == Some(htc_candidate(pk, alpha, c as u8))
                && (forall|j: int| ctr <= j < c ==> !pt_decode_ok(
                #[trigger] htc_candidate(pk, alpha, j as u8),
            )),
            None => htc_from(pk, alpha, ctr) is None,
        },
    decreases 256 - ctr,
{
    if ctr < 256 {
        if !pt_decode_ok(htc_candidate(pk, alpha, ctr as u8)) {
            lemma_htc_counter(pk, alpha, ctr + 1);
        }
    }
}

/// The try-and-increment map is a function of the public key and the
/// message alone: two computations that find points find the same
/// point, at the same counter.
pub proof fn lemma_hash_to_curve_deterministic(
    pk: Seq<u8>,
    alpha: Seq<u8>,
    r1: Option<Seq<u8>>,
    r2: Option<Seq<u8>>,
)
    requires
        r1 == htc_point(pk, alpha),
        r2 == htc_point(pk, alpha),
    ensures
        r1 == r2,
{
}

} // verus!
