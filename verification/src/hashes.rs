//! SHA-256 behind a trusted wrapper, and HMAC-SHA-256 built on it in
//! verified code.

use vstd::prelude::*;

use sha2::Digest;

use crate::nums::push_all;

verus! {

/// The SHA-256 digest of a byte string, as computed by the sha2 crate.
pub uninterp spec fn sha256_of(input: Seq<u8>) -> Seq<u8>;

/// Relies on sha2::Sha256: the digest is 32 bytes and depends on the
/// input bytes alone.
#[verifier::external_body]
pub(crate) fn sha256(input: &[u8]) -> (r: Vec<u8>)
    ensures
        r@ == sha256_of(input@),
        r@.len() == 32,
{
    let d = sha2::Sha256::digest(input);
    d.as_slice().to_vec()
}

/// The inner or outer padded key of HMAC: the key, padded with zeros to
/// the 64-byte block size, with each byte XORed against `x`.
pub open spec fn hmac_pad(key: Seq<u8>, x: u8) -> Seq<u8> {
    Seq::new(64, |i: int| if i < key.len() { key[i] ^ x } else { x })
}

/// HMAC-SHA-256 for keys of at most one block, per RFC 2104:
/// `H((key ^ opad) || H((key ^ ipad) || msg))`.
pub open spec fn hmac_sha256(key: Seq<u8>, msg: Seq<u8>) -> Seq<u8> {
    sha256_of(hmac_pad(key, 0x5c) + sha256_of(hmac_pad(key, 0x36) + msg))
}

/// One padded-and-XORed key block.
fn hmac_pad_exec(key: &[u8], x: u8) -> (r: Vec<u8>)
    requires
        key@.len() <= 64,
    ensures
        r@ == hmac_pad(key@, x),
{
    let mut v: Vec<u8> = Vec::new();
    let klen = key.len();
    let mut i: usize = 0;
    while i < 64
        invariant
            i <= 64,
            klen == key@.len(),
            klen <= 64,
            v@.len() == i,
            forall|j: int| 0 <= j < i ==> v@[j] == hmac_pad(key@, x)[j],
        decreases 64 - i,
    {
        if i < klen {
            v.push(key[i] ^ x);
        } else {
            v.push(x);
        }
        i = i + 1;
    }
    assert(v@ =~= hmac_pad(key@, x));
    v
}

/// HMAC-SHA-256 of `msg` under `key`, for keys of at most one block.
pub fn hmac(key: &[u8], msg: &[u8]) -> (r: Vec<u8>)
    requires
        key@.len() <= 64,
    ensures
        r@ == hmac_sha256(key@, msg@),
        r@.len() == 32,
{
    let mut inner = hmac_pad_exec(key, 0x36);
    push_all(&mut inner, msg);
    let inner_hash = sha256(inner.as_slice());
    let mut outer = hmac_pad_exec(key, 0x5c);
    push_all(&mut outer, inner_hash.as_slice());
    sha256(outer.as_slice())
}

} // verus!
