//! The curve capability: an abstract pairing-friendly elliptic-curve engine.
//!
//! Everything the verifier needs from a curve is collected in the [`Engine`]
//! trait: point validity and identity tests, compressed and uncompressed
//! point codecs, group arithmetic, and the pairing split into its Miller
//! loop and final exponentiation.  Each operation comes in two forms: a
//! `spec` function that names its mathematical value, and an executable
//! method proved to return exactly that value.  The `law_*` proof functions
//! are the algebraic facts the verifier's own proofs rest on; every
//! implementation of the trait must prove them, so nothing here is taken on
//! trust.

use vstd::prelude::*;

verus! {

pub trait Engine: Sized {
    /// An affine point of the first source group.
    type G1;

    /// An affine point of the second source group.
    type G2;

    /// A `G2` point preprocessed for repeated pairing evaluation.
    type G2Prepared;

    /// An element of the pairing target group.
    type Gt;

    /// A scalar field element.
    type Fr;

    // ------------------------------------------------------------------
    // The mathematical model.
    // ------------------------------------------------------------------

    /// Whether a `G1` value is a point of the curve's proper subgroup.
    spec fn spec_g1_valid(p: Self::G1) -> bool;

    /// Whether a `G2` value is a point of the curve's proper subgroup.
    spec fn spec_g2_valid(q: Self::G2) -> bool;

    /// Whether a prepared `G2` value is well-formed.
    spec fn spec_g2_prepared_valid(q: Self::G2Prepared) -> bool;

    /// Whether a target-group value is well-formed.
    spec fn spec_gt_valid(x: Self::Gt) -> bool;

    /// Whether a scalar value is well-formed.
    spec fn spec_fr_valid(k: Self::Fr) -> bool;

    /// Whether a `G1` point is the group identity (the point at infinity).
    spec fn spec_g1_is_zero(p: Self::G1) -> bool;

    /// Whether a `G2` point is the group identity.
    spec fn spec_g2_is_zero(q: Self::G2) -> bool;

    /// The byte length of a compressed `G1` encoding.
    spec fn spec_g1_compressed_size() -> nat;

    /// The byte length of an uncompressed `G1` encoding.
    spec fn spec_g1_uncompressed_size() -> nat;

    /// The byte length of a compressed `G2` encoding.
    spec fn spec_g2_compressed_size() -> nat;

    /// The byte length of an uncompressed `G2` encoding.
    spec fn spec_g2_uncompressed_size() -> nat;

    /// The compressed encoding of a valid `G1` point.
    spec fn spec_g1_compressed(p: Self::G1) -> Seq<u8>;

    /// The uncompressed encoding of a valid `G1` point.
    spec fn spec_g1_uncompressed(p: Self::G1) -> Seq<u8>;

    /// The compressed encoding of a valid `G2` point.
    spec fn spec_g2_compressed(q: Self::G2) -> Seq<u8>;

    /// The uncompressed encoding of a valid `G2` point.
    spec fn spec_g2_uncompressed(q: Self::G2) -> Seq<u8>;

    /// The point a compressed `G1` block decodes to, or `None` when the
    /// block is no valid encoding (wrong length, not on the curve, or not
    /// in the subgroup).
    spec fn spec_g1_from_compressed(b: Seq<u8>) -> Option<Self::G1>;

    /// The point an uncompressed `G1` block decodes to, or `None`.
    spec fn spec_g1_from_uncompressed(b: Seq<u8>) -> Option<Self::G1>;

    /// The point a compressed `G2` block decodes to, or `None`.
    spec fn spec_g2_from_compressed(b: Seq<u8>) -> Option<Self::G2>;

    /// The point an uncompressed `G2` block decodes to, or `None`.
    spec fn spec_g2_from_uncompressed(b: Seq<u8>) -> Option<Self::G2>;

    /// The sum of two `G1` points.
    spec fn spec_g1_add(a: Self::G1, b: Self::G1) -> Self::G1;

    /// The scalar multiple of a `G1` point.
    spec fn spec_g1_mul(p: Self::G1, k: Self::Fr) -> Self::G1;

    /// The negation of a `G2` point.
    spec fn spec_g2_neg(q: Self::G2) -> Self::G2;

    /// The prepared form of a `G2` point.
    spec fn spec_g2_prepare(q: Self::G2) -> Self::G2Prepared;

    /// The full pairing of a `G1` and a `G2` point.
    spec fn spec_pairing(p: Self::G1, q: Self::G2) -> Self::Gt;

    /// The Miller loop over one `(G1, prepared G2)` pair, before final
    /// exponentiation.
    spec fn spec_miller(p: Self::G1, q: Self::G2Prepared) -> Self::Gt;

    /// The final exponentiation, mapping Miller-loop output into the
    /// target group.
    spec fn spec_final_exp(f: Self::Gt) -> Self::Gt;

    /// The target-group product.
    spec fn spec_gt_mul(a: Self::Gt, b: Self::Gt) -> Self::Gt;

    /// The target-group inverse.
    spec fn spec_gt_inv(a: Self::Gt) -> Self::Gt;

    /// The target-group unit element.
    spec fn spec_gt_one() -> Self::Gt;

    // ------------------------------------------------------------------
    // Executable operations, each pinned to its model.
    // ------------------------------------------------------------------

    fn g1_compressed_size() -> (n: usize)
        ensures
            n as nat == Self::spec_g1_compressed_size(),
    ;

    fn g1_uncompressed_size() -> (n: usize)
        ensures
            n as nat == Self::spec_g1_uncompressed_size(),
    ;

    fn g2_compressed_size() -> (n: usize)
        ensures
            n as nat == Self::spec_g2_compressed_size(),
    ;

    fn g2_uncompressed_size() -> (n: usize)
        ensures
            n as nat == Self::spec_g2_uncompressed_size(),
    ;

    fn g1_is_zero(p: &Self::G1) -> (r: bool)
        ensures
            r == Self::spec_g1_is_zero(*p),
    ;

    fn g2_is_zero(q: &Self::G2) -> (r: bool)
        ensures
            r == Self::spec_g2_is_zero(*q),
    ;

    fn g1_eq(a: &Self::G1, b: &Self::G1) -> (r: bool)
        ensures
            r == (*a == *b),
    ;

    fn g2_eq(a: &Self::G2, b: &Self::G2) -> (r: bool)
        ensures
            r == (*a == *b),
    ;

    fn gt_eq(a: &Self::Gt, b: &Self::Gt) -> (r: bool)
        ensures
            r == (*a == *b),
    ;

    fn g1_clone(p: &Self::G1) -> (r: Self::G1)
        ensures
            r == *p,
    ;

    fn g1_to_compressed(p: &Self::G1) -> (r: Vec<u8>)
        requires
            Self::spec_g1_valid(*p),
        ensures
            r@ == Self::spec_g1_compressed(*p),
    ;

    fn g1_to_uncompressed(p: &Self::G1) -> (r: Vec<u8>)
        requires
            Self::spec_g1_valid(*p),
        ensures
            r@ == Self::spec_g1_uncompressed(*p),
    ;

    fn g2_to_compressed(q: &Self::G2) -> (r: Vec<u8>)
        requires
            Self::spec_g2_valid(*q),
        ensures
            r@ == Self::spec_g2_compressed(*q),
    ;

    fn g2_to_uncompressed(q: &Self::G2) -> (r: Vec<u8>)
        requires
            Self::spec_g2_valid(*q),
        ensures
            r@ == Self::spec_g2_uncompressed(*q),
    ;

    fn g1_from_compressed(b: &[u8]) -> (r: Option<Self::G1>)
        requires
            b@.len() == Self::spec_g1_compressed_size(),
        ensures
            r == Self::spec_g1_from_compressed(b@),
    ;

    fn g1_from_uncompressed(b: &[u8]) -> (r: Option<Self::G1>)
        requires
            b@.len() == Self::spec_g1_uncompressed_size(),
        ensures
            r == Self::spec_g1_from_uncompressed(b@),
    ;

    fn g2_from_compressed(b: &[u8]) -> (r: Option<Self::G2>)
        requires
            b@.len() == Self::spec_g2_compressed_size(),
        ensures
            r == Self::spec_g2_from_compressed(b@),
    ;

    fn g2_from_uncompressed(b: &[u8]) -> (r: Option<Self::G2>)
        requires
            b@.len() == Self::spec_g2_uncompressed_size(),
        ensures
            r == Self::spec_g2_from_uncompressed(b@),
    ;

    fn g1_add(a: &Self::G1, b: &Self::G1) -> (r: Self::G1)
        requires
            Self::spec_g1_valid(*a),
            Self::spec_g1_valid(*b),
        ensures
            r == Self::spec_g1_add(*a, *b),
    ;

    fn g1_mul(p: &Self::G1, k: &Self::Fr) -> (r: Self::G1)
        requires
            Self::spec_g1_valid(*p),
            Self::spec_fr_valid(*k),
        ensures
            r == Self::spec_g1_mul(*p, *k),
    ;

    fn g2_neg(q: &Self::G2) -> (r: Self::G2)
        requires
            Self::spec_g2_valid(*q),
        ensures
            r == Self::spec_g2_neg(*q),
    ;

    fn g2_prepare(q: &Self::G2) -> (r: Self::G2Prepared)
        requires
            Self::spec_g2_valid(*q),
        ensures
            r == Self::spec_g2_prepare(*q),
    ;

    fn pairing(p: &Self::G1, q: &Self::G2) -> (r: Self::Gt)
        requires
            Self::spec_g1_valid(*p),
            Self::spec_g2_valid(*q),
        ensures
            r == Self::spec_pairing(*p, *q),
    ;

    /// The multi-pairing product: the three Miller loops combined before a
    /// single final exponentiation.
    fn miller_loop_3(
        p1: &Self::G1,
        q1: &Self::G2Prepared,
        p2: &Self::G1,
        q2: &Self::G2Prepared,
        p3: &Self::G1,
        q3: &Self::G2Prepared,
    ) -> (r: Self::Gt)
        requires
            Self::spec_g1_valid(*p1),
            Self::spec_g1_valid(*p2),
            Self::spec_g1_valid(*p3),
            Self::spec_g2_prepared_valid(*q1),
            Self::spec_g2_prepared_valid(*q2),
            Self::spec_g2_prepared_valid(*q3),
        ensures
            r == Self::spec_gt_mul(
                Self::spec_gt_mul(Self::spec_miller(*p1, *q1), Self::spec_miller(*p2, *q2)),
                Self::spec_miller(*p3, *q3),
            ),
    ;

    fn final_exponentiation(f: &Self::Gt) -> (r: Self::Gt)
        requires
            Self::spec_gt_valid(*f),
        ensures
            r == Self::spec_final_exp(*f),
    ;

    // ------------------------------------------------------------------
    // Laws: the algebraic facts every implementation must prove.
    // ------------------------------------------------------------------

    /// A valid `G1` point's encodings have the declared lengths and decode
    /// back to the point itself.
    proof fn law_g1_codec(p: Self::G1)
        requires
            Self::spec_g1_valid(p),
        ensures
            Self::spec_g1_compressed(p).len() == Self::spec_g1_compressed_size(),
            Self::spec_g1_uncompressed(p).len() == Self::spec_g1_uncompressed_size(),
            Self::spec_g1_from_compressed(Self::spec_g1_compressed(p)) == Some(p),
            Self::spec_g1_from_uncompressed(Self::spec_g1_uncompressed(p)) == Some(p),
    ;

    /// A valid `G2` point's encodings have the declared lengths and decode
    /// back to the point itself.
    proof fn law_g2_codec(q: Self::G2)
        requires
            Self::spec_g2_valid(q),
        ensures
            Self::spec_g2_compressed(q).len() == Self::spec_g2_compressed_size(),
            Self::spec_g2_uncompressed(q).len() == Self::spec_g2_uncompressed_size(),
            Self::spec_g2_from_compressed(Self::spec_g2_compressed(q)) == Some(q),
            Self::spec_g2_from_uncompressed(Self::spec_g2_uncompressed(q)) == Some(q),
    ;

    /// Whatever a `G1` block decodes to is a valid point.
    proof fn law_g1_decode_valid(b: Seq<u8>)
        ensures
            Self::spec_g1_from_compressed(b) matches Some(p) ==> Self::spec_g1_valid(p),
            Self::spec_g1_from_uncompressed(b) matches Some(p) ==> Self::spec_g1_valid(p),
    ;

    /// Whatever a `G2` block decodes to is a valid point.
    proof fn law_g2_decode_valid(b: Seq<u8>)
        ensures
            Self::spec_g2_from_compressed(b) matches Some(q) ==> Self::spec_g2_valid(q),
            Self::spec_g2_from_uncompressed(b) matches Some(q) ==> Self::spec_g2_valid(q),
    ;

    /// `G1` arithmetic stays within the valid points.
    proof fn law_g1_ops_valid(a: Self::G1, b: Self::G1, k: Self::Fr)
        requires
            Self::spec_g1_valid(a),
            Self::spec_g1_valid(b),
            Self::spec_fr_valid(k),
        ensures
            Self::spec_g1_valid(Self::spec_g1_add(a, b)),
            Self::spec_g1_valid(Self::spec_g1_mul(a, k)),
    ;

    /// `G2` negation and preparation stay within the valid points.
    proof fn law_g2_ops_valid(q: Self::G2)
        requires
            Self::spec_g2_valid(q),
        ensures
            Self::spec_g2_valid(Self::spec_g2_neg(q)),
            Self::spec_g2_prepared_valid(Self::spec_g2_prepare(q)),
    ;

    /// Pairing and Miller-loop outputs are well-formed target-group values.
    proof fn law_pairing_valid(p: Self::G1, q: Self::G2, qp: Self::G2Prepared)
        requires
            Self::spec_g1_valid(p),
            Self::spec_g2_valid(q),
            Self::spec_g2_prepared_valid(qp),
        ensures
            Self::spec_gt_valid(Self::spec_pairing(p, q)),
            Self::spec_gt_valid(Self::spec_miller(p, qp)),
    ;

    /// Target-group operations stay within the well-formed values.
    proof fn law_gt_ops_valid(x: Self::Gt, y: Self::Gt)
        requires
            Self::spec_gt_valid(x),
            Self::spec_gt_valid(y),
        ensures
            Self::spec_gt_valid(Self::spec_gt_mul(x, y)),
            Self::spec_gt_valid(Self::spec_gt_inv(x)),
            Self::spec_gt_valid(Self::spec_final_exp(x)),
            Self::spec_gt_valid(Self::spec_gt_one()),
    ;

    /// The well-formed target-group values form a commutative group.
    proof fn law_gt_group(x: Self::Gt, y: Self::Gt, z: Self::Gt)
        requires
            Self::spec_gt_valid(x),
            Self::spec_gt_valid(y),
            Self::spec_gt_valid(z),
        ensures
            Self::spec_gt_mul(Self::spec_gt_mul(x, y), z) == Self::spec_gt_mul(
                x,
                Self::spec_gt_mul(y, z),
            ),
            Self::spec_gt_mul(x, y) == Self::spec_gt_mul(y, x),
            Self::spec_gt_mul(x, Self::spec_gt_inv(x)) == Self::spec_gt_one(),
            Self::spec_gt_mul(x, Self::spec_gt_one()) == x,
    ;

    /// Final exponentiation distributes over the target-group product.
    proof fn law_final_exp_hom(x: Self::Gt, y: Self::Gt)
        requires
            Self::spec_gt_valid(x),
            Self::spec_gt_valid(y),
        ensures
            Self::spec_final_exp(Self::spec_gt_mul(x, y)) == Self::spec_gt_mul(
                Self::spec_final_exp(x),
                Self::spec_final_exp(y),
            ),
    ;

    /// A Miller loop against a prepared point, followed by final
    /// exponentiation, is the pairing.
    proof fn law_miller_pairing(p: Self::G1, q: Self::G2)
        requires
            Self::spec_g1_valid(p),
            Self::spec_g2_valid(q),
        ensures
            Self::spec_final_exp(Self::spec_miller(p, Self::spec_g2_prepare(q))) == Self::spec_pairing(
                p,
                q,
            ),
    ;

    /// Pairing against a negated `G2` point inverts the pairing value.
    proof fn law_pairing_neg(p: Self::G1, q: Self::G2)
        requires
            Self::spec_g1_valid(p),
            Self::spec_g2_valid(q),
        ensures
            Self::spec_pairing(p, Self::spec_g2_neg(q)) == Self::spec_gt_inv(
                Self::spec_pairing(p, q),
            ),
    ;
}

} // verus!
