//! A toy pairing engine over the prime field of 65537 elements.
//!
//! Every group of the engine is realized by the same field: `G1` and `G2`
//! are the additive group, a prepared point is the point itself, and the
//! pairing of two points is their field product, so the pairing is bilinear.
//! Target-group values are written multiplicatively by the [`Engine`]
//! interface but realized additively here, with the field's zero as the
//! unit; the final exponentiation is the identity map.  Points encode as
//! big-endian field values: compressed `G1` in 4 bytes, uncompressed `G1`
//! and compressed `G2` in 8, uncompressed `G2` in 16, and a block whose
//! value reaches the modulus decodes to nothing, standing in for a block
//! that is not on the curve.
//!
//! The engine is small enough to compute with by hand, which is what the
//! tests do, yet it discharges every law of the [`Engine`] trait, so the
//! generic verifier's proofs are grounded in a checked instance.

use crate::bytes::{
    be_encode, be_value, lemma_be_encode_len, lemma_be_encode_zero_pad, lemma_be_roundtrip,
    lemma_pow256_mono, lemma_pow256_values, pow256, u32_from_be_bytes_checked, u32_to_be_bytes,
};
use crate::cursor::write_all;
use crate::engine::Engine;
use vstd::arithmetic::div_mod::{
    lemma_add_mod_noop, lemma_fundamental_div_mod, lemma_mod_bound, lemma_mod_multiples_vanish,
    lemma_mod_self_0, lemma_mul_mod_noop_right, lemma_small_mod,
};
use vstd::arithmetic::mul::lemma_mul_is_distributive_sub;
use vstd::prelude::*;

verus! {

/// The modulus of the toy field.
pub const TOY_MODULUS: u64 = 65537;

/// An element of the toy field, and thereby a point of every toy group.
#[derive(Clone, Copy, Debug, PartialEq, Eq, Structural)]
pub struct Fr {
    pub rep: u64,
}

/// The toy pairing engine.
pub struct DummyEngine;

/// Whether a field element is reduced below the modulus.
pub open spec fn toy_valid(a: Fr) -> bool {
    a.rep < TOY_MODULUS
}

/// Field addition: the group operation of `G1`, `G2`, and the target group.
pub open spec fn toy_add(a: Fr, b: Fr) -> Fr {
    Fr { rep: ((a.rep + b.rep) % (TOY_MODULUS as int)) as u64 }
}

/// Field multiplication: scalar multiplication and the pairing map.
pub open spec fn toy_mul(a: Fr, b: Fr) -> Fr {
    Fr { rep: ((a.rep * b.rep) % (TOY_MODULUS as int)) as u64 }
}

/// Field negation.
pub open spec fn toy_neg(a: Fr) -> Fr {
    Fr { rep: ((TOY_MODULUS - (a.rep % TOY_MODULUS)) % (TOY_MODULUS as int)) as u64 }
}

/// The big-endian encoding of a field element in `n` bytes.
pub open spec fn toy_encoded(a: Fr, n: nat) -> Seq<u8> {
    be_encode(a.rep as nat, n)
}

/// The field element an `n`-byte block decodes to, if it denotes a reduced
/// value; a block at or above the modulus stands in for a point that is not
/// on the curve.
pub open spec fn toy_decoded(b: Seq<u8>, n: nat) -> Option<Fr> {
    if b.len() == n && be_value(b) < TOY_MODULUS as nat {
        Some(Fr { rep: be_value(b) as u64 })
    } else {
        None
    }
}

/// The product of two reduced values stays far below the `u64` range.
proof fn lemma_toy_mul_bound(a: u64, b: u64)
    requires
        a < TOY_MODULUS,
        b < TOY_MODULUS,
    ensures
        a * b < 0x10_0000_0000,
{
    assert(a * b < 0x10_0000_0000) by (nonlinear_arith)
        requires
            a < 65537,
            b < 65537,
    ;
}

/// Appends `k` zero bytes to `out`.
fn push_zeros(out: &mut Vec<u8>, k: usize)
    ensures
        final(out)@ == old(out)@ + Seq::new(k as nat, |i: int| 0u8),
{
    proof {
        assert(out@ =~= old(out)@ + Seq::new(0, |j: int| 0u8));
    }
    let mut i: usize = 0;
    while i < k
        invariant
            i <= k,
            out@ == old(out)@ + Seq::new(i as nat, |j: int| 0u8),
        decreases k - i,
    {
        out.push(0u8);
        i = i + 1;
        proof {
            assert(out@ =~= old(out)@ + Seq::new(i as nat, |j: int| 0u8));
        }
    }
}

/// Encodes a reduced field element in `n` big-endian bytes.
fn toy_encode(a: &Fr, n: usize) -> (r: Vec<u8>)
    requires
        toy_valid(*a),
        n >= 4,
    ensures
        r@ == toy_encoded(*a, n as nat),
        r@.len() == n,
{
    let mut out: Vec<u8> = Vec::new();
    push_zeros(&mut out, n - 4);
    let tail = u32_to_be_bytes(a.rep as u32);
    write_all(&mut out, tail.as_slice());
    proof {
        lemma_pow256_values();
        lemma_be_encode_zero_pad(a.rep as nat, 4, (n - 4) as nat);
        lemma_be_encode_len(a.rep as nat, n as nat);
        assert(out@ =~= be_encode(a.rep as nat, n as nat));
    }
    out
}

/// Decodes a big-endian block back to a reduced field element.
fn toy_decode(b: &[u8]) -> (r: Option<Fr>)
    requires
        b@.len() >= 4,
    ensures
        r == toy_decoded(b@, b@.len()),
{
    proof {
        lemma_pow256_values();
    }
    match u32_from_be_bytes_checked(b) {
        None => None,
        Some(v) => {
            if (v as u64) < TOY_MODULUS {
                Some(Fr { rep: v as u64 })
            } else {
                None
            }
        },
    }
}

impl Engine for DummyEngine {
    type G1 = Fr;

    type G2 = Fr;

    type G2Prepared = Fr;

    type Gt = Fr;

    type Fr = Fr;

    open spec fn spec_g1_valid(p: Fr) -> bool {
        toy_valid(p)
    }

    open spec fn spec_g2_valid(q: Fr) -> bool {
        toy_valid(q)
    }

    open spec fn spec_g2_prepared_valid(q: Fr) -> bool {
        toy_valid(q)
    }

    open spec fn spec_gt_valid(x: Fr) -> bool {
        toy_valid(x)
    }

    open spec fn spec_fr_valid(k: Fr) -> bool {
        toy_valid(k)
    }

    open spec fn spec_g1_is_zero(p: Fr) -> bool {
        p.rep == 0
    }

    open spec fn spec_g2_is_zero(q: Fr) -> bool {
        q.rep == 0
    }

    open spec fn spec_g1_compressed_size() -> nat {
        4
    }

    open spec fn spec_g1_uncompressed_size() -> nat {
        8
    }

    open spec fn spec_g2_compressed_size() -> nat {
        8
    }

    open spec fn spec_g2_uncompressed_size() -> nat {
        16
    }

    open spec fn spec_g1_compressed(p: Fr) -> Seq<u8> {
        toy_encoded(p, 4)
    }

    open spec fn spec_g1_uncompressed(p: Fr) -> Seq<u8> {
        toy_encoded(p, 8)
    }

    open spec fn spec_g2_compressed(q: Fr) -> Seq<u8> {
        toy_encoded(q, 8)
    }

    open spec fn spec_g2_uncompressed(q: Fr) -> Seq<u8> {
        toy_encoded(q, 16)
    }

    open spec fn spec_g1_from_compressed(b: Seq<u8>) -> Option<Fr> {
        toy_decoded(b, 4)
    }

    open spec fn spec_g1_from_uncompressed(b: Seq<u8>) -> Option<Fr> {
        toy_decoded(b, 8)
    }

    open spec fn spec_g2_from_compressed(b: Seq<u8>) -> Option<Fr> {
        toy_decoded(b, 8)
    }

    open spec fn spec_g2_from_uncompressed(b: Seq<u8>) -> Option<Fr> {
        toy_decoded(b, 16)
    }

    open spec fn spec_g1_add(a: Fr, b: Fr) -> Fr {
        toy_add(a, b)
    }

    open spec fn spec_g1_mul(p: Fr, k: Fr) -> Fr {
        toy_mul(p, k)
    }

    open spec fn spec_g2_neg(q: Fr) -> Fr {
        toy_neg(q)
    }

    open spec fn spec_g2_prepare(q: Fr) -> Fr {
        q
    }

    open spec fn spec_pairing(p: Fr, q: Fr) -> Fr {
        toy_mul(p, q)
    }

    open spec fn spec_miller(p: Fr, q: Fr) -> Fr {
        toy_mul(p, q)
    }

    open spec fn spec_final_exp(f: Fr) -> Fr {
        f
    }

    open spec fn spec_gt_mul(a: Fr, b: Fr) -> Fr {
        toy_add(a, b)
    }

    open spec fn spec_gt_inv(a: Fr) -> Fr {
        toy_neg(a)
    }

    open spec fn spec_gt_one() -> Fr {
        Fr { rep: 0 }
    }

    fn g1_compressed_size() -> (n: usize) {
        4
    }

    fn g1_uncompressed_size() -> (n: usize) {
        8
    }

    fn g2_compressed_size() -> (n: usize) {
        8
    }

    fn g2_uncompressed_size() -> (n: usize) {
        16
    }

    fn g1_is_zero(p: &Fr) -> (r: bool) {
        p.rep == 0
    }

    fn g2_is_zero(q: &Fr) -> (r: bool) {
        q.rep == 0
    }

    fn g1_eq(a: &Fr, b: &Fr) -> (r: bool) {
        a.rep == b.rep
    }

    fn g2_eq(a: &Fr, b: &Fr) -> (r: bool) {
        a.rep == b.rep
    }

    fn gt_eq(a: &Fr, b: &Fr) -> (r: bool) {
        a.rep == b.rep
    }

    fn g1_clone(p: &Fr) -> (r: Fr) {
        *p
    }

    fn g1_to_compressed(p: &Fr) -> (r: Vec<u8>) {
        toy_encode(p, 4)
    }

    fn g1_to_uncompressed(p: &Fr) -> (r: Vec<u8>) {
        toy_encode(p, 8)
    }

    fn g2_to_compressed(q: &Fr) -> (r: Vec<u8>) {
        toy_encode(q, 8)
    }

    fn g2_to_uncompressed(q: &Fr) -> (r: Vec<u8>) {
        toy_encode(q, 16)
    }

    fn g1_from_compressed(b: &[u8]) -> (r: Option<Fr>) {
        toy_decode(b)
    }

    fn g1_from_uncompressed(b: &[u8]) -> (r: Option<Fr>) {
        toy_decode(b)
    }

    fn g2_from_compressed(b: &[u8]) -> (r: Option<Fr>) {
        toy_decode(b)
    }

    fn g2_from_uncompressed(b: &[u8]) -> (r: Option<Fr>) {
        toy_decode(b)
    }

    fn g1_add(a: &Fr, b: &Fr) -> (r: Fr) {
        Fr { rep: (a.rep + b.rep) % TOY_MODULUS }
    }

    fn g1_mul(p: &Fr, k: &Fr) -> (r: Fr) {
        proof {
            lemma_toy_mul_bound(p.rep, k.rep);
        }
        Fr { rep: (p.rep * k.rep) % TOY_MODULUS }
    }

    fn g2_neg(q: &Fr) -> (r: Fr) {
        proof {
            lemma_small_mod(q.rep as nat, TOY_MODULUS as nat);
        }
        Fr { rep: (TOY_MODULUS - q.rep) % TOY_MODULUS }
    }

    fn g2_prepare(q: &Fr) -> (r: Fr) {
        *q
    }

    fn pairing(p: &Fr, q: &Fr) -> (r: Fr) {
        proof {
            lemma_toy_mul_bound(p.rep, q.rep);
        }
        Fr { rep: (p.rep * q.rep) % TOY_MODULUS }
    }

    fn miller_loop_3(p1: &Fr, q1: &Fr, p2: &Fr, q2: &Fr, p3: &Fr, q3: &Fr) -> (r: Fr) {
        proof {
            lemma_toy_mul_bound(p1.rep, q1.rep);
            lemma_toy_mul_bound(p2.rep, q2.rep);
            lemma_toy_mul_bound(p3.rep, q3.rep);
        }
        let m1 = (p1.rep * q1.rep) % TOY_MODULUS;
        let m2 = (p2.rep * q2.rep) % TOY_MODULUS;
        let m3 = (p3.rep * q3.rep) % TOY_MODULUS;
        Fr { rep: ((m1 + m2) % TOY_MODULUS + m3) % TOY_MODULUS }
    }

    fn final_exponentiation(f: &Fr) -> (r: Fr) {
        *f
    }

    proof fn law_g1_codec(p: Fr) {
        lemma_toy_codec(p, 4);
        lemma_toy_codec(p, 8);
    }

    proof fn law_g2_codec(q: Fr) {
        lemma_toy_codec(q, 8);
        lemma_toy_codec(q, 16);
    }

    proof fn law_g1_decode_valid(b: Seq<u8>) {
    }

    proof fn law_g2_decode_valid(b: Seq<u8>) {
    }

    proof fn law_g1_ops_valid(a: Fr, b: Fr, k: Fr) {
        lemma_mod_bound((a.rep + b.rep) as int, TOY_MODULUS as int);
        lemma_mod_bound((a.rep * k.rep) as int, TOY_MODULUS as int);
    }

    proof fn law_g2_ops_valid(q: Fr) {
        lemma_mod_bound((TOY_MODULUS - (q.rep % TOY_MODULUS)) as int, TOY_MODULUS as int);
    }

    proof fn law_pairing_valid(p: Fr, q: Fr, qp: Fr) {
        lemma_mod_bound((p.rep * q.rep) as int, TOY_MODULUS as int);
        lemma_mod_bound((p.rep * qp.rep) as int, TOY_MODULUS as int);
    }

    proof fn law_gt_ops_valid(x: Fr, y: Fr) {
        lemma_mod_bound((x.rep + y.rep) as int, TOY_MODULUS as int);
        lemma_mod_bound((TOY_MODULUS - (x.rep % TOY_MODULUS)) as int, TOY_MODULUS as int);
    }

    proof fn law_gt_group(x: Fr, y: Fr, z: Fr) {
        let m = TOY_MODULUS as int;
        lemma_small_mod(x.rep as nat, TOY_MODULUS as nat);
        lemma_small_mod(y.rep as nat, TOY_MODULUS as nat);
        lemma_small_mod(z.rep as nat, TOY_MODULUS as nat);
        // Associativity: both sides reduce the plain sum of the three values.
        lemma_add_mod_noop((x.rep + y.rep) as int, z.rep as int, m);
        lemma_add_mod_noop(x.rep as int, (y.rep + z.rep) as int, m);
        // Inverse: the sum of a value and its negation is the modulus or zero.
        if x.rep == 0 {
            lemma_mod_self_0(m);
            lemma_small_mod(0, TOY_MODULUS as nat);
        } else {
            lemma_small_mod((TOY_MODULUS - x.rep) as nat, TOY_MODULUS as nat);
            lemma_mod_self_0(m);
        }
    }

    proof fn law_final_exp_hom(x: Fr, y: Fr) {
    }

    proof fn law_miller_pairing(p: Fr, q: Fr) {
    }

    proof fn law_pairing_neg(p: Fr, q: Fr) {
        lemma_toy_mul_neg(p, q);
    }
}

/// Encoding a reduced element in `n >= 4` bytes round-trips through decoding.
proof fn lemma_toy_codec(a: Fr, n: nat)
    requires
        toy_valid(a),
        n >= 4,
    ensures
        toy_encoded(a, n).len() == n,
        toy_decoded(toy_encoded(a, n), n) == Some(a),
{
    lemma_pow256_values();
    lemma_pow256_mono(4, n);
    lemma_be_encode_len(a.rep as nat, n);
    lemma_be_roundtrip(a.rep as nat, n);
}

/// Multiplying by a negated value negates the product, modulo the field.
proof fn lemma_toy_mul_neg(p: Fr, q: Fr)
    requires
        toy_valid(p),
        toy_valid(q),
    ensures
        toy_mul(p, toy_neg(q)) == toy_neg(toy_mul(p, q)),
{
    let m = TOY_MODULUS as int;
    let pv = p.rep as int;
    let qv = q.rep as int;
    lemma_small_mod(q.rep as nat, TOY_MODULUS as nat);
    assert(toy_neg(q).rep == (m - qv) % m);
    assert(toy_neg(q).rep == m - qv || (qv == 0 && toy_neg(q).rep == 0)) by {
        if qv == 0 {
            lemma_mod_self_0(m);
        } else {
            lemma_small_mod((TOY_MODULUS - q.rep) as nat, TOY_MODULUS as nat);
        }
    }
    // The left side reduces p * (m - q).
    lemma_mul_mod_noop_right(pv, m - qv, m);
    assert((pv * ((m - qv) % m)) % m == (pv * (m - qv)) % m);
    lemma_mul_is_distributive_sub(pv, m, qv);
    assert(pv * (m - qv) == pv * m - pv * qv);
    // Drop the multiple of m: p * (m - q) is congruent to -(p * q).
    lemma_mod_multiples_vanish(pv, -(pv * qv), m);
    assert((m * pv + -(pv * qv)) % m == (-(pv * qv)) % m);
    assert(pv * m - pv * qv == m * pv + -(pv * qv)) by {
        vstd::arithmetic::mul::lemma_mul_is_commutative(pv, m);
    }
    // The right side is (m - r) % m for r the reduced product.
    let r = (pv * qv) % m;
    lemma_mod_bound(pv * qv, m);
    lemma_small_mod(r as nat, TOY_MODULUS as nat);
    // -(p * q) and m - r are congruent, both reduce to the same residue.
    lemma_fundamental_div_mod(pv * qv, m);
    assert(pv * qv == m * ((pv * qv) / m) + r);
    assert(-(pv * qv) == m * (-((pv * qv) / m)) + (-r)) by {
        vstd::arithmetic::mul::lemma_mul_unary_negation(m, (pv * qv) / m);
    }
    lemma_mod_multiples_vanish(-((pv * qv) / m), -r, m);
    assert((-(pv * qv)) % m == (-r) % m);
    lemma_mod_multiples_vanish(-1, m - r, m);
    assert((m * -1 + (m - r)) % m == (m - r) % m);
    assert((-r) % m == (m - r) % m);
    assert(toy_mul(p, toy_neg(q)).rep == (m - r) % m);
    assert(toy_neg(toy_mul(p, q)).rep == (m - r) % m);
}

} // verus!
