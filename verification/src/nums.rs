//! Big-endian byte strings as natural numbers: the value model that
//! scalar contracts are stated over, with its canonicity lemmas.

use vstd::prelude::*;
use vstd::arithmetic::div_mod::lemma_fundamental_div_mod_converse;
use vstd::arithmetic::mul::lemma_mul_inequality;

verus! {

/// The value of a byte string read as a big-endian natural number.
pub open spec fn be_nat(s: Seq<u8>) -> nat
    decreases s.len(),
{
    if s.len() == 0 {
        0
    } else {
        (be_nat(s.drop_last()) * 256 + s.last()) as nat
    }
}

/// 256 raised to the power `k`: the number of byte strings of length `k`.
pub open spec fn pow256(k: nat) -> nat
    decreases k,
{
    if k == 0 {
        1
    } else {
        256 * pow256((k - 1) as nat)
    }
}

/// The canonical big-endian encoding of `v` in `len` bytes.
pub open spec fn be_of(v: nat, len: nat) -> Seq<u8>
    decreases len,
{
    if len == 0 {
        Seq::empty()
    } else {
        be_of(v / 256, (len - 1) as nat) + seq![(v % 256) as u8]
    }
}

/// The canonical 32-byte big-endian encoding of `v`.
pub open spec fn be32_of(v: nat) -> Seq<u8> {
    be_of(v, 32)
}

/// A byte string of length `len` denotes a value below `256^len`.
pub proof fn lemma_be_nat_bound(s: Seq<u8>)
    ensures
        be_nat(s) < pow256(s.len()),
    decreases s.len(),
{
    if s.len() > 0 {
        let dl = s.drop_last();
        lemma_be_nat_bound(dl);
        lemma_mul_inequality(be_nat(dl) as int, pow256(dl.len()) as int - 1, 256);
    }
}

/// Re-encoding the value of a byte string gives the same byte string:
/// the big-endian encoding of a fixed length is canonical.
pub proof fn lemma_be_of_be_nat(s: Seq<u8>)
    ensures
        be_of(be_nat(s), s.len()) == s,
    decreases s.len(),
{
    if s.len() > 0 {
        let dl = s.drop_last();
        let v = be_nat(s);
        lemma_fundamental_div_mod_converse(v as int, 256, be_nat(dl) as int, s.last() as int);
        assert(v / 256 == be_nat(dl));
        assert(v % 256 == s.last());
        lemma_be_of_be_nat(dl);
        assert(be_of(v, s.len()) =~= s);
    }
}

/// A byte string of zeros denotes zero.
pub proof fn lemma_be_nat_all_zero(s: Seq<u8>)
    requires
        forall|i: int| 0 <= i < s.len() ==> s[i] == 0,
    ensures
        be_nat(s) == 0,
    decreases s.len(),
{
    if s.len() > 0 {
        lemma_be_nat_all_zero(s.drop_last());
    }
}

/// A byte string denotes zero only when every byte is zero.
pub proof fn lemma_be_nat_zero_iff(s: Seq<u8>)
    ensures
        (be_nat(s) == 0) <==> (forall|i: int| 0 <= i < s.len() ==> s[i] == 0),
    decreases s.len(),
{
    if s.len() == 0 {
    } else {
        let dl = s.drop_last();
        lemma_be_nat_zero_iff(dl);
        if be_nat(s) == 0 {
            assert(be_nat(dl) * 256 >= 0) by (nonlinear_arith)
                requires be_nat(dl) >= 0;
            assert(s.last() == 0);
            assert(be_nat(dl) == 0) by (nonlinear_arith)
                requires be_nat(dl) * 256 + s.last() == 0, s.last() == 0, be_nat(dl) >= 0;
            assert forall|i: int| 0 <= i < s.len() implies s[i] == 0 by {
                if i < s.len() - 1 {
                    assert(dl[i] == 0);
                    assert(s[i] == dl[i]);
                } else {
                    assert(s[i] == s.last());
                }
            }
        } else {
            if forall|i: int| 0 <= i < s.len() ==> s[i] == 0 {
                assert(forall|i: int| 0 <= i < dl.len() ==> #[trigger] dl[i] == s[i]);
                assert(be_nat(dl) == 0);
                assert(be_nat(s) == 0);
            }
        }
    }
}

/// Leading zero bytes do not change the denoted value.
pub proof fn lemma_be_nat_zero_prefix(z: Seq<u8>, s: Seq<u8>)
    requires
        forall|i: int| 0 <= i < z.len() ==> z[i] == 0,
    ensures
        be_nat(z + s) == be_nat(s),
    decreases s.len(),
{
    if s.len() == 0 {
        assert(z + s =~= z);
        lemma_be_nat_all_zero(z);
    } else {
        assert((z + s).drop_last() =~= z + s.drop_last());
        assert((z + s).last() == s.last());
        lemma_be_nat_zero_prefix(z, s.drop_last());
    }
}

/// Appends every byte of `src` to `dst`, in order.
pub fn push_all(dst: &mut Vec<u8>, src: &[u8])
    ensures
        final(dst)@ == old(dst)@ + src@,
{
    let n = src.len();
    let mut i: usize = 0;
    while i < n
        invariant
            i <= n,
            n == src@.len(),
            dst@ == old(dst)@ + src@.subrange(0, i as int),
        decreases n - i,
    {
        dst.push(src[i]);
        assert(old(dst)@ + src@.subrange(0, i + 1 as int) =~= (old(dst)@ + src@.subrange(
            0,
            i as int,
        )).push(src@[i as int]));
        i = i + 1;
    }
    assert(src@.subrange(0, n as int) =~= src@);
}

/// A fresh byte vector holding `n` copies of `b`.
pub fn filled(b: u8, n: usize) -> (r: Vec<u8>)
    ensures
        r@ == Seq::new(n as nat, |i: int| b),
        r@.len() == n,
{
    let mut v: Vec<u8> = Vec::new();
    let mut i: usize = 0;
    while i < n
        invariant
            i <= n,
            v@.len() == i,
            forall|j: int| 0 <= j < i ==> v@[j] == b,
        decreases n - i,
    {
        v.push(b);
        i = i + 1;
    }
    assert(v@ =~= Seq::new(n as nat, |i: int| b));
    v
}

/// True when every byte of `s` is zero, that is, when `s` denotes zero.
pub fn is_zero_bytes(s: &[u8]) -> (r: bool)
    ensures
        r == (be_nat(s@) == 0),
{
    let n = s.len();
    let mut i: usize = 0;
    let mut all_zero = true;
    while i < n
        invariant
            i <= n,
            n == s@.len(),
            all_zero == (forall|j: int| 0 <= j < i ==> s@[j] == 0),
        decreases n - i,
    {
        all_zero = all_zero && s[i] == 0;
        i = i + 1;
    }
    proof {
        lemma_be_nat_zero_iff(s@);
    }
    all_zero
}

/// Branch-free equality of two byte strings.
pub fn eq_bytes(a: &[u8], b: &[u8]) -> (r: bool)
    ensures
        r == (a@ == b@),
{
    if a.len() != b.len() {
        proof {
            assert(a@.len() != b@.len());
        }
        return false;
    }
    let n = a.len();
    let mut i: usize = 0;
    let mut same = true;
    while i < n
        invariant
            i <= n,
            n == a@.len(),
            n == b@.len(),
            same == (forall|j: int| 0 <= j < i ==> a@[j] == b@[j]),
        decreases n - i,
    {
        same = same && a[i] == b[i];
        i = i + 1;
    }
    proof {
        if same {
            assert(a@ =~= b@);
        }
    }
    same
}

} // verus!
