//! Big-endian encoding of unsigned integers in byte sequences.
//!
//! The verifying-key wire format carries a 4-byte big-endian count, and the
//! toy engine's point encodings are big-endian field values, so this module
//! defines the big-endian value of a byte sequence, its inverse, and the
//! facts the codecs need about them.

use vstd::arithmetic::div_mod::{
    lemma_div_denominator, lemma_fundamental_div_mod, lemma_multiply_divide_lt,
};
use vstd::prelude::*;

verus! {

/// 256 raised to the power `n`: the number of distinct `n`-byte sequences.
pub open spec fn pow256(n: nat) -> nat
    decreases n,
{
    if n == 0 {
        1
    } else {
        256 * pow256((n - 1) as nat)
    }
}

/// The unsigned value denoted by a byte sequence read in big-endian order.
pub open spec fn be_value(s: Seq<u8>) -> nat
    decreases s.len(),
{
    if s.len() == 0 {
        0
    } else {
        be_value(s.drop_last()) * 256 + (s.last() as nat)
    }
}

/// The `n`-byte big-endian encoding of `v`; bits of `v` above the `n` bytes
/// are cut off.
pub open spec fn be_encode(v: nat, n: nat) -> Seq<u8>
    decreases n,
{
    if n == 0 {
        Seq::empty()
    } else {
        be_encode(v / 256, (n - 1) as nat).push((v % 256) as u8)
    }
}

pub proof fn lemma_be_encode_len(v: nat, n: nat)
    ensures
        be_encode(v, n).len() == n,
    decreases n,
{
    if n > 0 {
        lemma_be_encode_len(v / 256, (n - 1) as nat);
    }
}

/// An `n`-byte sequence denotes a value below `pow256(n)`.
pub proof fn lemma_be_value_bound(s: Seq<u8>)
    ensures
        be_value(s) < pow256(s.len()),
    decreases s.len(),
{
    if s.len() > 0 {
        lemma_be_value_bound(s.drop_last());
    }
}

/// `pow256` is monotone.
pub proof fn lemma_pow256_mono(a: nat, b: nat)
    requires
        a <= b,
    ensures
        pow256(a) <= pow256(b),
    decreases b,
{
    if a < b {
        lemma_pow256_mono(a, (b - 1) as nat);
    }
}

/// The small powers of 256 the codecs compare lengths and bounds against.
pub proof fn lemma_pow256_values()
    ensures
        pow256(0) == 1,
        pow256(1) == 256,
        pow256(2) == 0x1_0000,
        pow256(3) == 0x100_0000,
        pow256(4) == 0x1_0000_0000,
{
    assert(pow256(0) == 1);
    assert(pow256(1) == 256);
    assert(pow256(2) == 0x1_0000);
    assert(pow256(3) == 0x100_0000);
    assert(pow256(4) == 0x1_0000_0000);
}

/// Decoding inverts encoding for every value that fits in `n` bytes.
pub proof fn lemma_be_roundtrip(v: nat, n: nat)
    requires
        v < pow256(n),
    ensures
        be_value(be_encode(v, n)) == v,
    decreases n,
{
    if n > 0 {
        let tail = be_encode(v / 256, (n - 1) as nat);
        lemma_be_encode_len(v / 256, (n - 1) as nat);
        assert(tail.push((v % 256) as u8).drop_last() =~= tail);
        lemma_multiply_divide_lt(v as int, 256, pow256((n - 1) as nat) as int);
        lemma_be_roundtrip(v / 256, (n - 1) as nat);
        lemma_fundamental_div_mod(v as int, 256);
    }
}

/// The all-zero sequence denotes zero, and is what zero encodes to.
pub proof fn lemma_be_encode_zero(k: nat)
    ensures
        be_encode(0, k) =~= Seq::new(k, |i: int| 0u8),
    decreases k,
{
    if k > 0 {
        lemma_be_encode_zero((k - 1) as nat);
        assert(be_encode(0, k) =~= Seq::new(k, |i: int| 0u8));
    }
}

/// A value that fits in `n` bytes encodes into `n + k` bytes as `k` zero
/// bytes followed by its `n`-byte encoding.
pub proof fn lemma_be_encode_zero_pad(v: nat, n: nat, k: nat)
    requires
        v < pow256(n),
    ensures
        be_encode(v, n + k) =~= Seq::new(k, |i: int| 0u8) + be_encode(v, n),
    decreases n,
{
    if n == 0 {
        lemma_be_encode_zero(k);
        assert(be_encode(v, k) =~= Seq::new(k, |i: int| 0u8) + be_encode(v, 0));
    } else {
        lemma_multiply_divide_lt(v as int, 256, pow256((n - 1) as nat) as int);
        lemma_be_encode_zero_pad(v / 256, (n - 1) as nat, k);
        assert(be_encode(v, n + k) =~= Seq::new(k, |i: int| 0u8) + be_encode(v, n));
    }
}

/// Leading zero bytes do not change the denoted value.
pub proof fn lemma_be_value_zero_prefix(s: Seq<u8>, k: int)
    requires
        0 <= k <= s.len(),
        forall|i: int| 0 <= i < k ==> s[i] == 0,
    ensures
        be_value(s) == be_value(s.skip(k)),
    decreases s.len(),
{
    if k == s.len() {
        lemma_be_value_all_zero(s);
        assert(s.skip(k) =~= Seq::<u8>::empty());
    } else if s.len() > 0 {
        lemma_be_value_zero_prefix(s.drop_last(), k);
        assert(s.drop_last().skip(k) =~= s.skip(k).drop_last());
        assert(s.skip(k).last() == s.last());
    }
}

/// An all-zero sequence denotes zero.
pub proof fn lemma_be_value_all_zero(s: Seq<u8>)
    requires
        forall|i: int| 0 <= i < s.len() ==> s[i] == 0,
    ensures
        be_value(s) == 0,
    decreases s.len(),
{
    if s.len() > 0 {
        lemma_be_value_all_zero(s.drop_last());
    }
}

/// A nonzero byte at position `i` puts the value at or above the weight of
/// that position.
pub proof fn lemma_be_value_lower_bound(s: Seq<u8>, i: int)
    requires
        0 <= i < s.len(),
        s[i] != 0,
    ensures
        be_value(s) >= pow256((s.len() - 1 - i) as nat),
    decreases s.len(),
{
    if i == s.len() - 1 {
        assert(be_value(s) >= s.last() as nat);
    } else {
        lemma_be_value_lower_bound(s.drop_last(), i);
    }
}

/// The value of exactly four big-endian bytes, written as a polynomial.
pub proof fn lemma_be_value_4(s: Seq<u8>)
    requires
        s.len() == 4,
    ensures
        be_value(s) == ((s[0] as nat) * 0x1000000 + (s[1] as nat) * 0x10000 + (s[2] as nat) * 0x100
            + (s[3] as nat)),
{
    let s3 = s.drop_last();
    let s2 = s3.drop_last();
    let s1 = s2.drop_last();
    let s0 = s1.drop_last();
    assert(s3.len() == 3 && s2.len() == 2 && s1.len() == 1 && s0.len() == 0);
    assert(s1.last() == s[0] && s2.last() == s[1] && s3.last() == s[2] && s.last() == s[3]);
    assert(be_value(s0) == 0);
    assert(be_value(s1) == be_value(s0) * 256 + (s1.last() as nat));
    assert(be_value(s2) == be_value(s1) * 256 + (s2.last() as nat));
    assert(be_value(s3) == be_value(s2) * 256 + (s3.last() as nat));
    assert(be_value(s) == be_value(s3) * 256 + (s.last() as nat));
}

/// Reads four big-endian bytes as a `u32`.
pub fn u32_from_be_bytes(b: &[u8]) -> (r: u32)
    requires
        b@.len() == 4,
    ensures
        r as nat == be_value(b@),
{
    let b0 = *vstd::slice::slice_index_get(b, 0);
    let b1 = *vstd::slice::slice_index_get(b, 1);
    let b2 = *vstd::slice::slice_index_get(b, 2);
    let b3 = *vstd::slice::slice_index_get(b, 3);
    proof {
        lemma_be_value_4(b@);
    }
    (b0 as u32) * 0x1000000 + (b1 as u32) * 0x10000 + (b2 as u32) * 0x100 + (b3 as u32)
}

/// Writes a `u32` as four big-endian bytes.
pub fn u32_to_be_bytes(v: u32) -> (r: Vec<u8>)
    ensures
        r@ == be_encode(v as nat, 4),
        r@.len() == 4,
{
    let mut out: Vec<u8> = Vec::new();
    out.push((v / 0x1000000) as u8);
    out.push((v / 0x10000 % 0x100) as u8);
    out.push((v / 0x100 % 0x100) as u8);
    out.push((v % 0x100) as u8);
    proof {
        let n0 = v as nat;
        lemma_div_denominator(v as int, 256, 256);
        lemma_div_denominator(v as int, 0x10000, 256);
        assert(n0 / 256 / 256 == n0 / 0x10000);
        assert(n0 / 0x10000 / 256 == n0 / 0x1000000);
        vstd::arithmetic::div_mod::lemma_small_mod(n0 / 0x1000000, 256);
        assert(be_encode(n0, 4) == be_encode(n0 / 256, 3).push((n0 % 256) as u8));
        assert(be_encode(n0 / 256, 3) == be_encode(n0 / 0x10000, 2).push(
            ((n0 / 256) % 256) as u8,
        ));
        assert(be_encode(n0 / 0x10000, 2) == be_encode(n0 / 0x1000000, 1).push(
            ((n0 / 0x10000) % 256) as u8,
        ));
        assert(be_encode(n0 / 0x1000000, 1) == be_encode(n0 / 0x1000000 / 256, 0).push(
            ((n0 / 0x1000000) % 256) as u8,
        ));
        assert(out@ =~= be_encode(n0, 4));
    }
    out
}

/// Reads the big-endian value of `b` (at least four bytes) as a `u32`,
/// refusing values that do not fit.
pub fn u32_from_be_bytes_checked(b: &[u8]) -> (r: Option<u32>)
    requires
        b@.len() >= 4,
    ensures
        match r {
            Some(v) => v as nat == be_value(b@) && be_value(b@) < pow256(4),
            None => be_value(b@) >= pow256(4),
        },
{
    let n = b.len();
    let mut i: usize = 0;
    while i < n - 4
        invariant
            b@.len() == n,
            n >= 4,
            0 <= i <= n - 4,
            forall|j: int| 0 <= j < i ==> b@[j] == 0,
        decreases n - 4 - i,
    {
        if *vstd::slice::slice_index_get(b, i) != 0 {
            proof {
                lemma_be_value_lower_bound(b@, i as int);
                lemma_pow256_mono(4, (n - 1 - i) as nat);
            }
            return None;
        }
        i += 1;
    }
    let tail = vstd::slice::slice_subrange(b, n - 4, n);
    let v = u32_from_be_bytes(tail);
    proof {
        lemma_be_value_zero_prefix(b@, (n - 4) as int);
        lemma_be_value_bound(b@.skip((n - 4) as int));
    }
    Some(v)
}

} // verus!
