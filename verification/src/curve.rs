//! The secp256k1 collaborators: scalar arithmetic modulo the group
//! order and the group law, named and wrapped as trusted items over
//! plain byte encodings.

use vstd::prelude::*;

use k256::elliptic_curve::ops::Reduce;
use k256::elliptic_curve::sec1::ToSec1Point;
use k256::elliptic_curve::{Group, PrimeField};

use crate::nums::be_nat;

verus! {

/// The order n of the secp256k1 group: scalars are residues modulo n.
pub open spec fn group_order() -> nat {
    0xFFFFFFFFFFFFFFFFFFFFFFFFFFFFFFFEBAAEDCE6AF48A03BBFD25E8CD0364141nat
}

/// Whether a byte string is the SEC1 encoding of an on-curve,
/// non-identity secp256k1 point, as the k256 crate decides it.
pub uninterp spec fn pt_decode_ok(b: Seq<u8>) -> bool;

/// The compressed encoding of scalar-times-generator, `None` for the
/// identity, as the k256 crate computes it.
pub uninterp spec fn pt_mul_gen(k: Seq<u8>) -> Option<Seq<u8>>;

/// The compressed encoding of scalar-times-point, `None` for the
/// identity, as the k256 crate computes it.
pub uninterp spec fn pt_mul(k: Seq<u8>, p: Seq<u8>) -> Option<Seq<u8>>;

/// The compressed encoding of the difference of two points, `None` for
/// the identity, as the k256 crate computes it.
pub uninterp spec fn pt_sub(a: Seq<u8>, b: Seq<u8>) -> Option<Seq<u8>>;

/// Relies on k256::PublicKey::from_sec1_bytes: it accepts exactly the
/// SEC1 point encodings (compressed, uncompressed, or compact) of
/// on-curve, non-identity points.
#[verifier::external_body]
pub(crate) fn point_check(b: &[u8]) -> (r: bool)
    ensures
        r == pt_decode_ok(b@),
{
    k256::PublicKey::from_sec1_bytes(b).is_ok()
}

/// Relies on k256's scalar-by-generator multiplication and SEC1
/// compression; a non-identity result re-parses as a valid point.
#[verifier::external_body]
pub(crate) fn point_mul_gen(k: &[u8]) -> (r: Option<Vec<u8>>)
    requires
        k@.len() == 32,
        be_nat(k@) < group_order(),
    ensures
        match r {
            Some(v) => pt_mul_gen(k@) == Some(v@) && v@.len() == 33 && pt_decode_ok(v@),
            None => pt_mul_gen(k@) is None,
        },
{
    let arr: [u8; 32] = k.try_into().unwrap();
    let s: Option<k256::Scalar> = k256::Scalar::from_repr(arr.into()).into();
    let p = k256::ProjectivePoint::GENERATOR * s.unwrap();
    if bool::from(p.is_identity()) {
        None
    } else {
        Some(p.to_affine().to_sec1_point(true).as_bytes().to_vec())
    }
}

/// Relies on k256's scalar-by-point multiplication and SEC1 codec; a
/// non-identity result re-parses as a valid point.
#[verifier::external_body]
pub(crate) fn point_mul(k: &[u8], p: &[u8]) -> (r: Option<Vec<u8>>)
    requires
        k@.len() == 32,
        be_nat(k@) < group_order(),
        pt_decode_ok(p@),
    ensures
        match r {
            Some(v) => pt_mul(k@, p@) == Some(v@) && v@.len() == 33 && pt_decode_ok(v@),
            None => pt_mul(k@, p@) is None,
        },
{
    let arr: [u8; 32] = k.try_into().unwrap();
    let s: Option<k256::Scalar> = k256::Scalar::from_repr(arr.into()).into();
    let q = k256::PublicKey::from_sec1_bytes(p).unwrap().to_projective() * s.unwrap();
    if bool::from(q.is_identity()) {
        None
    } else {
        Some(q.to_affine().to_sec1_point(true).as_bytes().to_vec())
    }
}

/// Relies on k256's point subtraction and SEC1 codec; a non-identity
/// result re-parses as a valid point.
#[verifier::external_body]
pub(crate) fn point_sub(a: &[u8], b: &[u8]) -> (r: Option<Vec<u8>>)
    requires
        pt_decode_ok(a@),
        pt_decode_ok(b@),
    ensures
        match r {
            Some(v) => pt_sub(a@, b@) == Some(v@) && v@.len() == 33 && pt_decode_ok(v@),
            None => pt_sub(a@, b@) is None,
        },
{
    let pa = k256::PublicKey::from_sec1_bytes(a).unwrap().to_projective();
    let pb = k256::PublicKey::from_sec1_bytes(b).unwrap().to_projective();
    let q = pa - pb;
    if bool::from(q.is_identity()) {
        None
    } else {
        Some(q.to_affine().to_sec1_point(true).as_bytes().to_vec())
    }
}

/// Relies on k256::Scalar::from_repr: it succeeds exactly on canonical
/// 32-byte big-endian values below the group order.
#[verifier::external_body]
pub(crate) fn scalar_check(b: &[u8]) -> (r: bool)
    requires
        b@.len() == 32,
    ensures
        r == (be_nat(b@) < group_order()),
{
    let arr: [u8; 32] = b.try_into().unwrap();
    let s: Option<k256::Scalar> = k256::Scalar::from_repr(arr.into()).into();
    s.is_some()
}

/// Relies on k256's Reduce impl: since n exceeds 2^255, one conditional
/// subtraction reduces any 256-bit value modulo n.
#[verifier::external_body]
pub(crate) fn scalar_reduce(b: &[u8]) -> (r: Vec<u8>)
    requires
        b@.len() == 32,
    ensures
        r@.len() == 32,
        be_nat(r@) == be_nat(b@) % group_order(),
{
    let arr: [u8; 32] = b.try_into().unwrap();
    let s = <k256::Scalar as Reduce<k256::FieldBytes>>::reduce(&arr.into());
    s.to_bytes().as_slice().to_vec()
}

/// Relies on k256::Scalar addition, which is addition modulo n.
#[verifier::external_body]
pub(crate) fn scalar_add(a: &[u8], b: &[u8]) -> (r: Vec<u8>)
    requires
        a@.len() == 32,
        be_nat(a@) < group_order(),
        b@.len() == 32,
        be_nat(b@) < group_order(),
    ensures
        r@.len() == 32,
        be_nat(r@) == (be_nat(a@) + be_nat(b@)) % group_order(),
{
    let aa: [u8; 32] = a.try_into().unwrap();
    let ba: [u8; 32] = b.try_into().unwrap();
    let sa: Option<k256::Scalar> = k256::Scalar::from_repr(aa.into()).into();
    let sb: Option<k256::Scalar> = k256::Scalar::from_repr(ba.into()).into();
    (sa.unwrap() + sb.unwrap()).to_bytes().as_slice().to_vec()
}

/// Relies on k256::Scalar multiplication, which is multiplication
/// modulo n.
#[verifier::external_body]
pub(crate) fn scalar_mul(a: &[u8], b: &[u8]) -> (r: Vec<u8>)
    requires
        a@.len() == 32,
        be_nat(a@) < group_order(),
        b@.len() == 32,
        be_nat(b@) < group_order(),
    ensures
        r@.len() == 32,
        be_nat(r@) == (be_nat(a@) * be_nat(b@)) % group_order(),
{
    let aa: [u8; 32] = a.try_into().unwrap();
    let ba: [u8; 32] = b.try_into().unwrap();
    let sa: Option<k256::Scalar> = k256::Scalar::from_repr(aa.into()).into();
    let sb: Option<k256::Scalar> = k256::Scalar::from_repr(ba.into()).into();
    (sa.unwrap() * sb.unwrap()).to_bytes().as_slice().to_vec()
}

} // verus!
