//! Hexadecimal text encoding of byte strings, verified in both
//! directions.

use vstd::prelude::*;

use crate::VrfError;

verus! {

/// The lowercase ASCII hex digit for a value below 16.
pub open spec fn hex_digit(n: u8) -> u8
    recommends
        n < 16,
{
    if n < 10 {
        (48 + n) as u8
    } else {
        (87 + n) as u8
    }
}

/// The lowercase hexadecimal spelling of a byte string, two digits per
/// byte, most significant digit first.
pub open spec fn hex_of(b: Seq<u8>) -> Seq<u8>
    decreases b.len(),
{
    if b.len() == 0 {
        Seq::empty()
    } else {
        hex_of(b.drop_last()) + seq![hex_digit(b.last() / 16), hex_digit(b.last() % 16)]
    }
}

/// The value of one ASCII hex digit, upper or lower case, or `None`.
pub open spec fn hex_val(c: u8) -> Option<u8> {
    if 48 <= c <= 57 {
        Some((c - 48) as u8)
    } else if 97 <= c <= 102 {
        Some((c - 87) as u8)
    } else if 65 <= c <= 70 {
        Some((c - 55) as u8)
    } else {
        None
    }
}

/// The bytes a hex string denotes: `None` when the length is odd or any
/// character is not a hex digit.
pub open spec fn unhex_of(s: Seq<u8>) -> Option<Seq<u8>>
    decreases s.len(),
{
    if s.len() % 2 != 0 {
        None
    } else if s.len() == 0 {
        Some(Seq::empty())
    } else {
        match (hex_val(s[0]), hex_val(s[1]), unhex_of(s.skip(2))) {
            (Some(hi), Some(lo), Some(rest)) => Some(seq![(hi * 16 + lo) as u8] + rest),
            _ => None,
        }
    }
}

/// Encodes a byte string as lowercase hexadecimal.
pub fn hex_encode(b: &[u8]) -> (r: Vec<u8>)
    ensures
        r@ == hex_of(b@),
        r@.len() == 2 * b@.len(),
{
    let n = b.len();
    let mut out: Vec<u8> = Vec::new();
    let mut i: usize = 0;
    while i < n
        invariant
            i <= n,
            n == b@.len(),
            out@ == hex_of(b@.subrange(0, i as int)),
            out@.len() == 2 * i,
        decreases n - i,
    {
        let byte = b[i];
        let hi = byte / 16;
        let lo = byte % 16;
        out.push(if hi < 10 { 48 + hi } else { 87 + hi });
        out.push(if lo < 10 { 48 + lo } else { 87 + lo });
        proof {
            let pre = b@.subrange(0, i as int);
            let cur = b@.subrange(0, i + 1);
            assert(cur.drop_last() =~= pre);
            assert(cur.last() == b@[i as int]);
            assert(out@ =~= hex_of(pre) + seq![hex_digit(cur.last() / 16), hex_digit(cur.last() % 16)]);
        }
        i = i + 1;
    }
    proof {
        assert(b@.subrange(0, n as int) =~= b@);
    }
    out
}

/// Maps `unhex_of` over an already-decoded prefix: the whole string
/// decodes exactly when the rest does, with the prefix in front.
spec fn opt_prepend(a: Seq<u8>, o: Option<Seq<u8>>) -> Option<Seq<u8>> {
    match o {
        Some(r) => Some(a + r),
        None => None,
    }
}

/// Decodes a hexadecimal string, upper or lower case; fails with
/// `HexError` on an odd length or a character that is no hex digit.
pub fn hex_decode(s: &[u8]) -> (r: Result<Vec<u8>, VrfError>)
    ensures
        match r {
            Ok(b) => unhex_of(s@) == Some(b@),
            Err(e) => e == VrfError::HexError && unhex_of(s@) is None,
        },
{
    let n = s.len();
    if n % 2 != 0 {
        return Err(VrfError::HexError);
    }
    let mut out: Vec<u8> = Vec::new();
    let mut i: usize = 0;
    proof {
        assert(s@.skip(0) =~= s@);
        match unhex_of(s@) {
            Some(r) => {
                assert(Seq::<u8>::empty() + r =~= r);
            },
            None => {},
        }
    }
    while i < n
        invariant
            i <= n,
            i % 2 == 0,
            n % 2 == 0,
            n == s@.len(),
            unhex_of(s@) == opt_prepend(out@, unhex_of(s@.skip(i as int))),
        decreases n - i,
    {
        let hi = match hex_val_exec(s[i]) {
            Some(v) => v,
            None => {
                proof {
                    assert(s@.skip(i as int)[0] == s@[i as int]);
                }
                return Err(VrfError::HexError);
            },
        };
        let lo = match hex_val_exec(s[i + 1]) {
            Some(v) => v,
            None => {
                proof {
                    assert(s@.skip(i as int)[1] == s@[i + 1]);
                }
                return Err(VrfError::HexError);
            },
        };
        out.push(hi * 16 + lo);
        proof {
            let rest = s@.skip(i as int);
            assert(rest[0] == s@[i as int]);
            assert(rest[1] == s@[i + 1]);
            assert(rest.skip(2) =~= s@.skip(i + 2));
            assert(forall|a: Seq<u8>, x: u8, o: Option<Seq<u8>>|
                opt_prepend(a.push(x), o) == opt_prepend(a, opt_prepend(seq![x], o)));
            assert(opt_prepend(seq![(hi * 16 + lo) as u8], unhex_of(s@.skip(i + 2)))
                == unhex_of(rest));
        }
        i = i + 2;
    }
    proof {
        assert(s@.skip(n as int) =~= Seq::<u8>::empty());
        assert(unhex_of(s@.skip(n as int)) == Some(Seq::<u8>::empty()));
        assert(out@ + Seq::<u8>::empty() =~= out@);
    }
    Ok(out)
}

/// The value of one hex digit character, or `None`.
fn hex_val_exec(c: u8) -> (r: Option<u8>)
    ensures
        r == hex_val(c),
{
    if 48 <= c && c <= 57 {
        Some(c - 48)
    } else if 97 <= c && c <= 102 {
        Some(c - 87)
    } else if 65 <= c && c <= 70 {
        Some(c - 55)
    } else {
        None
    }
}

/// `hex_of` distributes over concatenation.
proof fn lemma_hex_of_concat(x: Seq<u8>, y: Seq<u8>)
    ensures
        hex_of(x + y) == hex_of(x) + hex_of(y),
    decreases y.len(),
{
    if y.len() == 0 {
        assert(x + y =~= x);
        assert(hex_of(x) + hex_of(y) =~= hex_of(x));
    } else {
        assert((x + y).drop_last() =~= x + y.drop_last());
        assert((x + y).last() == y.last());
        lemma_hex_of_concat(x, y.drop_last());
        assert(hex_of(x) + hex_of(y) =~= hex_of(x) + hex_of(y.drop_last()) + seq![
            hex_digit(y.last() / 16),
            hex_digit(y.last() % 16),
        ]);
    }
}

/// Decoding inverts encoding: every byte string round-trips through its
/// lowercase hexadecimal spelling.
pub proof fn lemma_hex_roundtrip(b: Seq<u8>)
    ensures
        unhex_of(hex_of(b)) == Some(b),
    decreases b.len(),
{
    if b.len() == 0 {
    } else {
        let head = seq![b[0]];
        let tail = b.skip(1);
        assert(b =~= head + tail);
        lemma_hex_of_concat(head, tail);
        let h = hex_of(b);
        assert(hex_of(head) == seq![hex_digit(b[0] / 16), hex_digit(b[0] % 16)]) by {
            reveal_with_fuel(hex_of, 3);
            assert(head.drop_last() =~= Seq::<u8>::empty());
            assert(hex_of(Seq::<u8>::empty()) + seq![hex_digit(b[0] / 16), hex_digit(b[0] % 16)]
                =~= seq![hex_digit(b[0] / 16), hex_digit(b[0] % 16)]);
        }
        assert(h =~= seq![hex_digit(b[0] / 16), hex_digit(b[0] % 16)] + hex_of(tail));
        lemma_hex_roundtrip(tail);
        lemma_hex_of_even(tail);
        assert(h.len() % 2 == 0);
        assert(h[0] == hex_digit(b[0] / 16));
        assert(h[1] == hex_digit(b[0] % 16));
        assert(hex_val(hex_digit(b[0] / 16)) == Some(b[0] / 16));
        assert(hex_val(hex_digit(b[0] % 16)) == Some(b[0] % 16));
        assert(h.skip(2) =~= hex_of(tail));
        assert((b[0] / 16) * 16 + (b[0] % 16) == b[0]) by (nonlinear_arith);
        assert(unhex_of(h) == Some(seq![b[0]] + tail));
        assert(seq![b[0]] + tail =~= b);
    }
}

/// A hex spelling has even length.
proof fn lemma_hex_of_even(b: Seq<u8>)
    ensures
        hex_of(b).len() == 2 * b.len(),
    decreases b.len(),
{
    if b.len() > 0 {
        lemma_hex_of_even(b.drop_last());
    }
}

} // verus!
