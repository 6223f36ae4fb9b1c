//! The proof value, its fixed-width wire format, the challenge
//! digest, and the output hash.

use vstd::prelude::*;

use crate::curve::{group_order, point_check, pt_decode_ok, scalar_check};
use crate::hashes::{sha256, sha256_of};
use crate::nums::{be_nat, push_all};
use crate::VrfError;

verus! {

/// A VRF proof: the secret-scaled curve point Gamma, the half-length
/// challenge scalar c, and the full-length response scalar s.
#[derive(Debug)]
pub struct VrfProof {
    /// Compressed encoding of the Gamma point, 33 bytes.
    pub gamma: Vec<u8>,
    /// The challenge scalar, 16 bytes.
    pub c: Vec<u8>,
    /// The response scalar, 32 bytes big-endian, below the group order.
    pub s: Vec<u8>,
}

/// The mathematical content of a proof: the three fields as byte
/// strings.
#[verifier::ext_equal]
pub struct ProofModel {
    /// Compressed Gamma point encoding.
    pub gamma: Seq<u8>,
    /// Challenge scalar bytes.
    pub c: Seq<u8>,
    /// Response scalar bytes.
    pub s: Seq<u8>,
}

impl View for VrfProof {
    type V = ProofModel;

    open spec fn view(&self) -> ProofModel {
        ProofModel { gamma: self.gamma@, c: self.c@, s: self.s@ }
    }
}

/// A well-formed proof: field widths as the wire format fixes them,
/// Gamma a valid point, s a canonical scalar.
pub open spec fn proof_wf(p: ProofModel) -> bool {
    &&& p.gamma.len() == 33
    &&& pt_decode_ok(p.gamma)
    &&& p.c.len() == 16
    &&& p.s.len() == 32
    &&& be_nat(p.s) < group_order()
}

/// The 81-byte wire form of a proof: `Gamma || c || s`.
pub open spec fn encode_spec(p: ProofModel) -> Seq<u8> {
    p.gamma + p.c + p.s
}

/// What decoding a wire proof yields: the three fixed-width fields,
/// after the length, point and scalar-range checks.
pub open spec fn decode_spec(b: Seq<u8>) -> Result<ProofModel, VrfError> {
    if b.len() != 81 {
        Err(VrfError::DecodeError)
    } else {
        let p = ProofModel {
            gamma: b.subrange(0, 33),
            c: b.subrange(33, 49),
            s: b.subrange(49, 81),
        };
        if pt_decode_ok(p.gamma) && be_nat(p.s) < group_order() {
            Ok(p)
        } else {
            Err(VrfError::DecodeError)
        }
    }
}

/// Serializes a proof into its 81-byte wire form.
pub fn encode_proof(p: &VrfProof) -> (r: Vec<u8>)
    ensures
        r@ == encode_spec(p@),
{
    let mut out: Vec<u8> = Vec::new();
    push_all(&mut out, p.gamma.as_slice());
    push_all(&mut out, p.c.as_slice());
    push_all(&mut out, p.s.as_slice());
    out
}

/// Parses an 81-byte wire proof; rejects a wrong length, a Gamma that
/// is no curve point, and a response scalar out of range, each with
/// `DecodeError`.
pub fn decode_proof(b: &[u8]) -> (r: Result<VrfProof, VrfError>)
    ensures
        match r {
            Ok(p) => decode_spec(b@) == Ok::<ProofModel, VrfError>(p@) && proof_wf(p@),
            Err(e) => decode_spec(b@) == Err::<ProofModel, VrfError>(e),
        },
{
    if b.len() != 81 {
        return Err(VrfError::DecodeError);
    }
    let mut gamma: Vec<u8> = Vec::new();
    let mut c: Vec<u8> = Vec::new();
    let mut s: Vec<u8> = Vec::new();
    let mut i: usize = 0;
    while i < 33
        invariant
            i <= 33,
            b@.len() == 81,
            gamma@ == b@.subrange(0, i as int),
        decreases 33 - i,
    {
        gamma.push(b[i]);
        assert(b@.subrange(0, i + 1) =~= b@.subrange(0, i as int).push(b@[i as int]));
        i = i + 1;
    }
    while i < 49
        invariant
            33 <= i <= 49,
            b@.len() == 81,
            c@ == b@.subrange(33, i as int),
        decreases 49 - i,
    {
        c.push(b[i]);
        assert(b@.subrange(33, i + 1) =~= b@.subrange(33, i as int).push(b@[i as int]));
        i = i + 1;
    }
    while i < 81
        invariant
            49 <= i <= 81,
            b@.len() == 81,
            s@ == b@.subrange(49, i as int),
        decreases 81 - i,
    {
        s.push(b[i]);
        assert(b@.subrange(49, i + 1) =~= b@.subrange(49, i as int).push(b@[i as int]));
        i = i + 1;
    }
    if !point_check(gamma.as_slice()) {
        return Err(VrfError::DecodeError);
    }
    if !scalar_check(s.as_slice()) {
        return Err(VrfError::DecodeError);
    }
    Ok(VrfProof { gamma, c, s })
}

/// Decoding inverts encoding: every well-formed proof round-trips
/// through its wire form.
pub proof fn lemma_proof_roundtrip(p: ProofModel)
    requires
        proof_wf(p),
    ensures
        decode_spec(encode_spec(p)) == Ok::<ProofModel, VrfError>(p),
{
    let b = encode_spec(p);
    assert(b.subrange(0, 33) =~= p.gamma);
    assert(b.subrange(33, 49) =~= p.c);
    assert(b.subrange(49, 81) =~= p.s);
    assert(decode_spec(b) == Ok::<ProofModel, VrfError>(ProofModel {
        gamma: b.subrange(0, 33),
        c: b.subrange(33, 49),
        s: b.subrange(49, 81),
    }));
    assert(ProofModel { gamma: b.subrange(0, 33), c: b.subrange(33, 49), s: b.subrange(49, 81) } =~= p);
}

/// A byte string that is not exactly 81 bytes long never decodes.
pub proof fn lemma_decode_wrong_length(b: Seq<u8>)
    requires
        b.len() != 81,
    ensures
        decode_spec(b) == Err::<ProofModel, VrfError>(VrfError::DecodeError),
{
}

/// The challenge bytes bound to four points: the first 16 bytes of the
/// digest of `suite || 0x02 || H || Gamma || U || V`.
pub open spec fn challenge_spec(h: Seq<u8>, gamma: Seq<u8>, u: Seq<u8>, v: Seq<u8>) -> Seq<u8> {
    sha256_of(seq![0xFEu8, 0x02u8] + h + gamma + u + v).take(16)
}

/// Computes the challenge scalar for four point encodings.
pub fn challenge(h: &[u8], gamma: &[u8], u: &[u8], v: &[u8]) -> (r: Vec<u8>)
    ensures
        r@ == challenge_spec(h@, gamma@, u@, v@),
        r@.len() == 16,
{
    let mut msg: Vec<u8> = Vec::new();
    msg.push(0xFE);
    msg.push(0x02);
    push_all(&mut msg, h);
    push_all(&mut msg, gamma);
    push_all(&mut msg, u);
    push_all(&mut msg, v);
    proof {
        assert(msg@ =~= seq![0xFEu8, 0x02u8] + h@ + gamma@ + u@ + v@);
    }
    let mut digest = sha256(msg.as_slice());
    digest.truncate(16);
    digest
}

/// The output hash a Gamma point determines: the digest of
/// `suite || 0x03 || Gamma`.
pub open spec fn output_spec(gamma: Seq<u8>) -> Seq<u8> {
    sha256_of(seq![0xFEu8, 0x03u8] + gamma)
}

/// Derives the pseudorandom output from a proof's Gamma point.
pub fn proof_output(gamma: &[u8]) -> (r: Vec<u8>)
    ensures
        r@ == output_spec(gamma@),
        r@.len() == 32,
{
    let mut msg: Vec<u8> = Vec::new();
    msg.push(0xFE);
    msg.push(0x03);
    push_all(&mut msg, gamma);
    proof {
        assert(msg@ =~= seq![0xFEu8, 0x03u8] + gamma@);
    }
    sha256(msg.as_slice())
}

} // verus!
