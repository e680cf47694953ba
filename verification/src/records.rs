//! The serializable data entities: proof records and verifying-key records.
//!
//! A proof travels as three compressed points; a verifying key as six
//! uncompressed points, a 4-byte big-endian count, and that many
//! uncompressed input-coefficient points.  Proofs are compressed to keep
//! the wire size small, verifying keys uncompressed so a key loaded once
//! and reused does not pay the decompression cost on every load.
//!
//! Reading rejects, in order of discovery: a truncated buffer (I/O error),
//! a block that is no valid point (I/O error), and a valid point equal to
//! the group identity (identity error).  The spec parsers below pin that
//! behavior byte for byte, and the round-trip lemmas prove that reading
//! inverts writing.

use crate::bytes::{
    be_encode, be_value, lemma_be_encode_len, lemma_be_roundtrip, lemma_pow256_values,
};
use crate::cursor::{write_all, write_u32_be, ByteCursor};
use crate::engine::Engine;
use crate::errors::SynthesisError;
use vstd::prelude::*;

verus! {

/// The upper bound on the input-coefficient count a verifying key may
/// declare: adversarial bytes must not force an unbounded allocation.
pub const MAX_IC_LEN: u32 = 65536;

// ----------------------------------------------------------------------
// Decoding one point at a fixed position.
// ----------------------------------------------------------------------

/// The outcome of decoding a compressed `G1` block at `pos`, with identity
/// points rejected.
pub open spec fn spec_decode_g1_comp_at<E: Engine>(bytes: Seq<u8>, pos: nat) -> Result<
    E::G1,
    SynthesisError,
> {
    if pos + E::spec_g1_compressed_size() > bytes.len() {
        Err(SynthesisError::IoError)
    } else {
        match E::spec_g1_from_compressed(
            bytes.subrange(pos as int, (pos + E::spec_g1_compressed_size()) as int),
        ) {
            None => Err(SynthesisError::IoError),
            Some(p) => if E::spec_g1_is_zero(p) {
                Err(SynthesisError::UnexpectedIdentity)
            } else {
                Ok(p)
            },
        }
    }
}

/// The outcome of decoding a compressed `G2` block at `pos`.
pub open spec fn spec_decode_g2_comp_at<E: Engine>(bytes: Seq<u8>, pos: nat) -> Result<
    E::G2,
    SynthesisError,
> {
    if pos + E::spec_g2_compressed_size() > bytes.len() {
        Err(SynthesisError::IoError)
    } else {
        match E::spec_g2_from_compressed(
            bytes.subrange(pos as int, (pos + E::spec_g2_compressed_size()) as int),
        ) {
            None => Err(SynthesisError::IoError),
            Some(q) => if E::spec_g2_is_zero(q) {
                Err(SynthesisError::UnexpectedIdentity)
            } else {
                Ok(q)
            },
        }
    }
}

/// The outcome of decoding an uncompressed `G1` block at `pos`.
pub open spec fn spec_decode_g1_uncomp_at<E: Engine>(bytes: Seq<u8>, pos: nat) -> Result<
    E::G1,
    SynthesisError,
> {
    if pos + E::spec_g1_uncompressed_size() > bytes.len() {
        Err(SynthesisError::IoError)
    } else {
        match E::spec_g1_from_uncompressed(
            bytes.subrange(pos as int, (pos + E::spec_g1_uncompressed_size()) as int),
        ) {
            None => Err(SynthesisError::IoError),
            Some(p) => if E::spec_g1_is_zero(p) {
                Err(SynthesisError::UnexpectedIdentity)
            } else {
                Ok(p)
            },
        }
    }
}

/// The outcome of decoding an uncompressed `G2` block at `pos`.
pub open spec fn spec_decode_g2_uncomp_at<E: Engine>(bytes: Seq<u8>, pos: nat) -> Result<
    E::G2,
    SynthesisError,
> {
    if pos + E::spec_g2_uncompressed_size() > bytes.len() {
        Err(SynthesisError::IoError)
    } else {
        match E::spec_g2_from_uncompressed(
            bytes.subrange(pos as int, (pos + E::spec_g2_uncompressed_size()) as int),
        ) {
            None => Err(SynthesisError::IoError),
            Some(q) => if E::spec_g2_is_zero(q) {
                Err(SynthesisError::UnexpectedIdentity)
            } else {
                Ok(q)
            },
        }
    }
}

// ----------------------------------------------------------------------
// Proof records.
// ----------------------------------------------------------------------

/// A Groth16 proof: two `G1` points and one `G2` point, none of them the
/// group identity.
#[verifier::reject_recursive_types(E)]
pub struct Proof<E: Engine> {
    pub a: E::G1,
    pub b: E::G2,
    pub c: E::G1,
}

impl<E: Engine> Proof<E> {
    /// All three points lie on the curve, in the right subgroup.
    pub open spec fn points_valid(self) -> bool {
        E::spec_g1_valid(self.a) && E::spec_g2_valid(self.b) && E::spec_g1_valid(self.c)
    }

    /// None of the three points is the group identity.
    pub open spec fn no_identity(self) -> bool {
        !E::spec_g1_is_zero(self.a) && !E::spec_g2_is_zero(self.b) && !E::spec_g1_is_zero(self.c)
    }

    /// The record invariant: valid, non-identity points.
    pub open spec fn wf(self) -> bool {
        self.points_valid() && self.no_identity()
    }
}

/// The wire encoding of a proof: compressed `a`, `b`, `c`, in that order.
pub open spec fn spec_proof_bytes<E: Engine>(p: Proof<E>) -> Seq<u8> {
    E::spec_g1_compressed(p.a) + E::spec_g2_compressed(p.b) + E::spec_g1_compressed(p.c)
}

/// What reading a proof from `bytes` yields: the record, or the first
/// error the blocks run into.  Trailing bytes are ignored.
pub open spec fn spec_read_proof<E: Engine>(bytes: Seq<u8>) -> Result<Proof<E>, SynthesisError> {
    let n1 = E::spec_g1_compressed_size();
    let n2 = E::spec_g2_compressed_size();
    match spec_decode_g1_comp_at::<E>(bytes, 0) {
        Err(e) => Err(e),
        Ok(a) => match spec_decode_g2_comp_at::<E>(bytes, n1) {
            Err(e) => Err(e),
            Ok(b) => match spec_decode_g1_comp_at::<E>(bytes, n1 + n2) {
                Err(e) => Err(e),
                Ok(c) => Ok(Proof { a, b, c }),
            },
        },
    }
}

impl<E: Engine> Proof<E> {
    /// Appends the proof's wire encoding to `writer`; a record holding an
    /// identity point is refused and `writer` is left unchanged.
    pub fn write(&self, writer: &mut Vec<u8>) -> (r: Result<(), SynthesisError>)
        requires
            self.points_valid(),
        ensures
            match r {
                Ok(()) => self.no_identity() && final(writer)@ == old(writer)@
                    + spec_proof_bytes(*self),
                Err(e) => {
                    &&& e == SynthesisError::UnexpectedIdentity
                    &&& !self.no_identity()
                    &&& final(writer)@ == old(writer)@
                },
            },
    {
        if E::g1_is_zero(&self.a) || E::g2_is_zero(&self.b) || E::g1_is_zero(&self.c) {
            return Err(SynthesisError::UnexpectedIdentity);
        }
        let ab = E::g1_to_compressed(&self.a);
        write_all(writer, ab.as_slice());
        let bb = E::g2_to_compressed(&self.b);
        write_all(writer, bb.as_slice());
        let cb = E::g1_to_compressed(&self.c);
        write_all(writer, cb.as_slice());
        proof {
            assert(writer@ =~= old(writer)@ + spec_proof_bytes(*self));
        }
        Ok(())
    }

    /// Reads a proof from the front of `bytes`, rejecting truncated input,
    /// blocks that are no point, and identity points.
    pub fn read(bytes: &[u8]) -> (r: Result<Self, SynthesisError>)
        ensures
            r == spec_read_proof::<E>(bytes@),
            r matches Ok(p) ==> p.wf(),
    {
        let mut cur = ByteCursor::new(bytes);
        let n1 = E::g1_compressed_size();
        let n2 = E::g2_compressed_size();

        let a = match cur.read_exact(n1) {
            Err(e) => {
                return Err(e);
            },
            Ok(block) => match E::g1_from_compressed(block.as_slice()) {
                None => {
                    return Err(SynthesisError::IoError);
                },
                Some(p) => {
                    if E::g1_is_zero(&p) {
                        return Err(SynthesisError::UnexpectedIdentity);
                    }
                    proof {
                        E::law_g1_decode_valid(block@);
                    }
                    p
                },
            },
        };
        assert(spec_decode_g1_comp_at::<E>(bytes@, 0) == Ok::<E::G1, SynthesisError>(a));

        let b = match cur.read_exact(n2) {
            Err(e) => {
                return Err(e);
            },
            Ok(block) => match E::g2_from_compressed(block.as_slice()) {
                None => {
                    return Err(SynthesisError::IoError);
                },
                Some(q) => {
                    if E::g2_is_zero(&q) {
                        return Err(SynthesisError::UnexpectedIdentity);
                    }
                    proof {
                        E::law_g2_decode_valid(block@);
                    }
                    q
                },
            },
        };
        assert(spec_decode_g2_comp_at::<E>(bytes@, E::spec_g1_compressed_size()) == Ok::<
            E::G2,
            SynthesisError,
        >(b));

        let c = match cur.read_exact(n1) {
            Err(e) => {
                return Err(e);
            },
            Ok(block) => match E::g1_from_compressed(block.as_slice()) {
                None => {
                    return Err(SynthesisError::IoError);
                },
                Some(p) => {
                    if E::g1_is_zero(&p) {
                        return Err(SynthesisError::UnexpectedIdentity);
                    }
                    proof {
                        E::law_g1_decode_valid(block@);
                    }
                    p
                },
            },
        };
        assert(spec_decode_g1_comp_at::<E>(
            bytes@,
            E::spec_g1_compressed_size() + E::spec_g2_compressed_size(),
        ) == Ok::<E::G1, SynthesisError>(c));

        Ok(Proof { a, b, c })
    }
}

impl<E: Engine> PartialEq for Proof<E> {
    /// Componentwise point equality.
    fn eq(&self, other: &Self) -> (r: bool) {
        E::g1_eq(&self.a, &other.a) && E::g2_eq(&self.b, &other.b) && E::g1_eq(&self.c, &other.c)
    }
}

impl<E: Engine> vstd::std_specs::cmp::PartialEqSpecImpl for Proof<E> {
    open spec fn obeys_eq_spec() -> bool {
        true
    }

    open spec fn eq_spec(&self, other: &Self) -> bool {
        self.a == other.a && self.b == other.b && self.c == other.c
    }
}

/// Reading a proof's own encoding yields the proof back: the round trip
/// over the wire format, for every well-formed record.
pub proof fn lemma_proof_roundtrip<E: Engine>(p: Proof<E>)
    requires
        p.wf(),
    ensures
        spec_read_proof::<E>(spec_proof_bytes(p)) == Ok::<Proof<E>, SynthesisError>(p),
{
    let e1 = E::spec_g1_compressed(p.a);
    let e2 = E::spec_g2_compressed(p.b);
    let e3 = E::spec_g1_compressed(p.c);
    E::law_g1_codec(p.a);
    E::law_g2_codec(p.b);
    E::law_g1_codec(p.c);
    let bytes = spec_proof_bytes(p);
    let n1 = E::spec_g1_compressed_size();
    let n2 = E::spec_g2_compressed_size();
    assert(bytes.subrange(0, n1 as int) =~= e1);
    assert(bytes.subrange(n1 as int, (n1 + n2) as int) =~= e2);
    assert(bytes.subrange((n1 + n2) as int, (n1 + n2 + n1) as int) =~= e3);
    assert(spec_decode_g1_comp_at::<E>(bytes, 0) == Ok::<E::G1, SynthesisError>(p.a));
    assert(spec_decode_g2_comp_at::<E>(bytes, n1) == Ok::<E::G2, SynthesisError>(p.b));
    assert(spec_decode_g1_comp_at::<E>(bytes, n1 + n2) == Ok::<E::G1, SynthesisError>(p.c));
}

/// Identity rejection at the parser: whatever a proof parse accepts is a
/// well-formed record, so an encoding that holds an identity point (or a
/// block that is no point at all) never decodes silently.
pub proof fn lemma_read_proof_wf<E: Engine>(bytes: Seq<u8>)
    ensures
        spec_read_proof::<E>(bytes) matches Ok(p) ==> p.wf(),
{
    let n1 = E::spec_g1_compressed_size();
    let n2 = E::spec_g2_compressed_size();
    if spec_read_proof::<E>(bytes) is Ok {
        E::law_g1_decode_valid(bytes.subrange(0, n1 as int));
        E::law_g2_decode_valid(bytes.subrange(n1 as int, (n1 + n2) as int));
        E::law_g1_decode_valid(bytes.subrange((n1 + n2) as int, (n1 + n2 + n1) as int));
    }
}

// ----------------------------------------------------------------------
// Verifying-key records.
// ----------------------------------------------------------------------

/// A Groth16 verifying key: six scalar points and the ordered
/// input-coefficient points, none of them the group identity.
#[verifier::reject_recursive_types(E)]
pub struct VerifyingKey<E: Engine> {
    pub alpha_g1: E::G1,
    pub beta_g1: E::G1,
    pub beta_g2: E::G2,
    pub gamma_g2: E::G2,
    pub delta_g1: E::G1,
    pub delta_g2: E::G2,
    /// One point per public input, plus one; combined linearly with the
    /// public inputs during verification.
    pub ic: Vec<E::G1>,
}

/// The mathematical value of a verifying key, with the coefficient vector
/// as a sequence.
#[verifier::ext_equal]
pub struct VerifyingKeyView<E: Engine> {
    pub alpha_g1: E::G1,
    pub beta_g1: E::G1,
    pub beta_g2: E::G2,
    pub gamma_g2: E::G2,
    pub delta_g1: E::G1,
    pub delta_g2: E::G2,
    pub ic: Seq<E::G1>,
}

impl<E: Engine> View for VerifyingKey<E> {
    type V = VerifyingKeyView<E>;

    open spec fn view(&self) -> VerifyingKeyView<E> {
        VerifyingKeyView {
            alpha_g1: self.alpha_g1,
            beta_g1: self.beta_g1,
            beta_g2: self.beta_g2,
            gamma_g2: self.gamma_g2,
            delta_g1: self.delta_g1,
            delta_g2: self.delta_g2,
            ic: self.ic@,
        }
    }
}

impl<E: Engine> VerifyingKeyView<E> {
    /// All points lie on the curve, in the right subgroup.
    pub open spec fn points_valid(self) -> bool {
        &&& E::spec_g1_valid(self.alpha_g1)
        &&& E::spec_g1_valid(self.beta_g1)
        &&& E::spec_g2_valid(self.beta_g2)
        &&& E::spec_g2_valid(self.gamma_g2)
        &&& E::spec_g1_valid(self.delta_g1)
        &&& E::spec_g2_valid(self.delta_g2)
        &&& forall|i: int| 0 <= i < self.ic.len() ==> E::spec_g1_valid(#[trigger] self.ic[i])
    }

    /// No point, input coefficients included, is the group identity.
    pub open spec fn no_identity(self) -> bool {
        &&& !E::spec_g1_is_zero(self.alpha_g1)
        &&& !E::spec_g1_is_zero(self.beta_g1)
        &&& !E::spec_g2_is_zero(self.beta_g2)
        &&& !E::spec_g2_is_zero(self.gamma_g2)
        &&& !E::spec_g1_is_zero(self.delta_g1)
        &&& !E::spec_g2_is_zero(self.delta_g2)
        &&& forall|i: int| 0 <= i < self.ic.len() ==> !E::spec_g1_is_zero(#[trigger] self.ic[i])
    }

    /// The record invariant: valid, non-identity points, and a bounded
    /// coefficient count.
    pub open spec fn wf(self) -> bool {
        self.points_valid() && self.no_identity() && self.ic.len() <= MAX_IC_LEN as nat
    }
}

impl<E: Engine> VerifyingKey<E> {
    pub open spec fn points_valid(self) -> bool {
        self@.points_valid()
    }

    pub open spec fn no_identity(self) -> bool {
        self@.no_identity()
    }

    pub open spec fn wf(self) -> bool {
        self@.wf()
    }
}

/// The wire encoding of the input-coefficient points, in order.
pub open spec fn spec_ic_bytes<E: Engine>(ic: Seq<E::G1>) -> Seq<u8>
    decreases ic.len(),
{
    if ic.len() == 0 {
        Seq::empty()
    } else {
        E::spec_g1_uncompressed(ic[0]) + spec_ic_bytes::<E>(ic.drop_first())
    }
}

/// The wire encoding of a verifying key: six uncompressed points, the
/// 4-byte big-endian coefficient count, then the coefficient points.
pub open spec fn spec_vk_bytes<E: Engine>(v: VerifyingKeyView<E>) -> Seq<u8> {
    E::spec_g1_uncompressed(v.alpha_g1) + E::spec_g1_uncompressed(v.beta_g1)
        + E::spec_g2_uncompressed(v.beta_g2) + E::spec_g2_uncompressed(v.gamma_g2)
        + E::spec_g1_uncompressed(v.delta_g1) + E::spec_g2_uncompressed(v.delta_g2) + be_encode(
        v.ic.len(),
        4,
    ) + spec_ic_bytes::<E>(v.ic)
}

/// What reading `count` input-coefficient points starting at `pos` yields.
pub open spec fn spec_read_ic<E: Engine>(bytes: Seq<u8>, pos: nat, count: nat) -> Result<
    Seq<E::G1>,
    SynthesisError,
>
    decreases count,
{
    if count == 0 {
        Ok(Seq::empty())
    } else {
        match spec_decode_g1_uncomp_at::<E>(bytes, pos) {
            Err(e) => Err(e),
            Ok(p) => match spec_read_ic::<E>(
                bytes,
                pos + E::spec_g1_uncompressed_size(),
                (count - 1) as nat,
            ) {
                Err(e) => Err(e),
                Ok(rest) => Ok(seq![p] + rest),
            },
        }
    }
}

/// What reading a verifying key from `bytes` yields: the record's value, or
/// the first error.  A declared coefficient count past [`MAX_IC_LEN`] is
/// refused before any coefficient is read.
pub open spec fn spec_read_vk<E: Engine>(bytes: Seq<u8>) -> Result<
    VerifyingKeyView<E>,
    SynthesisError,
> {
    let u1 = E::spec_g1_uncompressed_size();
    let u2 = E::spec_g2_uncompressed_size();
    match spec_decode_g1_uncomp_at::<E>(bytes, 0) {
        Err(e) => Err(e),
        Ok(alpha_g1) => match spec_decode_g1_uncomp_at::<E>(bytes, u1) {
            Err(e) => Err(e),
            Ok(beta_g1) => match spec_decode_g2_uncomp_at::<E>(bytes, 2 * u1) {
                Err(e) => Err(e),
                Ok(beta_g2) => match spec_decode_g2_uncomp_at::<E>(bytes, 2 * u1 + u2) {
                    Err(e) => Err(e),
                    Ok(gamma_g2) => match spec_decode_g1_uncomp_at::<E>(bytes, 2 * u1 + 2 * u2) {
                        Err(e) => Err(e),
                        Ok(delta_g1) => match spec_decode_g2_uncomp_at::<E>(
                            bytes,
                            3 * u1 + 2 * u2,
                        ) {
                            Err(e) => Err(e),
                            Ok(delta_g2) => {
                                let cpos = 3 * u1 + 3 * u2;
                                if cpos + 4 > bytes.len() {
                                    Err(SynthesisError::IoError)
                                } else {
                                    let count = be_value(
                                        bytes.subrange(cpos as int, (cpos + 4) as int),
                                    );
                                    if count > MAX_IC_LEN as nat {
                                        Err(SynthesisError::IoError)
                                    } else {
                                        match spec_read_ic::<E>(bytes, cpos + 4, count) {
                                            Err(e) => Err(e),
                                            Ok(ic) => Ok(
                                                VerifyingKeyView {
                                                    alpha_g1,
                                                    beta_g1,
                                                    beta_g2,
                                                    gamma_g2,
                                                    delta_g1,
                                                    delta_g2,
                                                    ic,
                                                },
                                            ),
                                        }
                                    }
                                }
                            },
                        },
                    },
                },
            },
        },
    }
}

/// Taking one more coefficient extends the encoding by that point's block.
pub proof fn lemma_ic_bytes_snoc<E: Engine>(ic: Seq<E::G1>, i: int)
    requires
        0 <= i < ic.len(),
    ensures
        spec_ic_bytes::<E>(ic.take(i + 1)) == spec_ic_bytes::<E>(ic.take(i))
            + E::spec_g1_uncompressed(ic[i]),
    decreases i,
{
    if i == 0 {
        assert(ic.take(1).drop_first() =~= Seq::<E::G1>::empty());
        assert(ic.take(0) =~= Seq::<E::G1>::empty());
        assert(spec_ic_bytes::<E>(ic.take(1)) =~= spec_ic_bytes::<E>(ic.take(0))
            + E::spec_g1_uncompressed(ic[0]));
    } else {
        let df = ic.drop_first();
        lemma_ic_bytes_snoc::<E>(df, i - 1);
        assert(ic.take(i + 1).drop_first() =~= df.take(i));
        assert(ic.take(i).drop_first() =~= df.take(i - 1));
        assert(ic.take(i + 1)[0] == ic[0]);
        assert(ic.take(i)[0] == ic[0]);
        assert(df[i - 1] == ic[i]);
        assert(spec_ic_bytes::<E>(ic.take(i + 1)) == E::spec_g1_uncompressed(ic[0])
            + spec_ic_bytes::<E>(df.take(i)));
        assert(spec_ic_bytes::<E>(ic.take(i)) == E::spec_g1_uncompressed(ic[0])
            + spec_ic_bytes::<E>(df.take(i - 1)));
        assert(spec_ic_bytes::<E>(ic.take(i + 1)) =~= spec_ic_bytes::<E>(ic.take(i))
            + E::spec_g1_uncompressed(ic[i]));
    }
}

/// The coefficient encoding is one uncompressed block per point.
pub proof fn lemma_ic_bytes_len<E: Engine>(ic: Seq<E::G1>)
    requires
        forall|i: int| 0 <= i < ic.len() ==> E::spec_g1_valid(#[trigger] ic[i]),
    ensures
        spec_ic_bytes::<E>(ic).len() == ic.len() * E::spec_g1_uncompressed_size(),
    decreases ic.len(),
{
    let u1 = E::spec_g1_uncompressed_size();
    if ic.len() == 0 {
        assert(ic.len() * u1 == 0) by (nonlinear_arith)
            requires
                ic.len() == 0,
        ;
    } else {
        E::law_g1_codec(ic[0]);
        let df = ic.drop_first();
        assert(forall|i: int| 0 <= i < df.len() ==> E::spec_g1_valid(#[trigger] df[i])) by {
            assert(forall|i: int| 0 <= i < df.len() ==> df[i] == ic[i + 1]);
        }
        lemma_ic_bytes_len::<E>(df);
        assert(ic.len() * u1 == u1 + (ic.len() - 1) * u1) by (nonlinear_arith);
    }
}

/// Reading `ic.len()` coefficients out of their own encoding yields the
/// coefficients back.
pub proof fn lemma_read_ic_of_bytes<E: Engine>(bytes: Seq<u8>, pos: nat, ic: Seq<E::G1>)
    requires
        forall|i: int|
            0 <= i < ic.len() ==> E::spec_g1_valid(#[trigger] ic[i]) && !E::spec_g1_is_zero(
                ic[i],
            ),
        pos + spec_ic_bytes::<E>(ic).len() <= bytes.len(),
        bytes.subrange(pos as int, (pos + spec_ic_bytes::<E>(ic).len()) as int) == spec_ic_bytes::<
            E,
        >(ic),
    ensures
        spec_read_ic::<E>(bytes, pos, ic.len()) == Ok::<Seq<E::G1>, SynthesisError>(ic),
    decreases ic.len(),
{
    if ic.len() > 0 {
        let u1 = E::spec_g1_uncompressed_size();
        E::law_g1_codec(ic[0]);
        let head = E::spec_g1_uncompressed(ic[0]);
        let df = ic.drop_first();
        let rest = spec_ic_bytes::<E>(df);
        let whole = spec_ic_bytes::<E>(ic);
        assert(whole == head + rest);
        assert(whole.len() == u1 + rest.len());
        assert forall|i: int| 0 <= i < u1 implies bytes[pos as int + i] == head[i] by {
            assert(bytes.subrange(pos as int, (pos + whole.len()) as int)[i] == whole[i]);
        }
        assert(bytes.subrange(pos as int, (pos + u1) as int) =~= head);
        assert(spec_decode_g1_uncomp_at::<E>(bytes, pos) == Ok::<E::G1, SynthesisError>(ic[0]));
        assert forall|i: int|
            0 <= i < df.len() implies E::spec_g1_valid(#[trigger] df[i]) && !E::spec_g1_is_zero(
            df[i],
        ) by {
            assert(df[i] == ic[i + 1]);
        }
        assert forall|i: int| 0 <= i < rest.len() implies bytes[pos + u1 + i] == rest[i] by {
            assert(bytes.subrange(pos as int, (pos + whole.len()) as int)[u1 + i] == whole[
                u1 + i
            ]);
        }
        assert(bytes.subrange((pos + u1) as int, (pos + u1 + rest.len()) as int) =~= rest);
        lemma_read_ic_of_bytes::<E>(bytes, pos + u1, df);
        assert(spec_read_ic::<E>(bytes, pos + u1, df.len()) == Ok::<Seq<E::G1>, SynthesisError>(
            df,
        ));
        assert((ic.len() - 1) as nat == df.len());
        assert(spec_read_ic::<E>(bytes, pos, ic.len()) == Ok::<Seq<E::G1>, SynthesisError>(
            seq![ic[0]] + df,
        ));
        assert(seq![ic[0]] + df =~= ic);
    } else {
        assert(ic =~= Seq::<E::G1>::empty());
    }
}

impl<E: Engine> VerifyingKey<E> {
    /// Appends the key's wire encoding to `writer`; a record holding an
    /// identity point anywhere, the coefficients included, is refused and
    /// `writer` is left unchanged.
    #[verifier::loop_isolation(false)]
    pub fn write(&self, writer: &mut Vec<u8>) -> (r: Result<(), SynthesisError>)
        requires
            self.points_valid(),
            self.ic@.len() <= MAX_IC_LEN as nat,
        ensures
            match r {
                Ok(()) => self.no_identity() && final(writer)@ == old(writer)@ + spec_vk_bytes(
                    self@,
                ),
                Err(e) => {
                    &&& e == SynthesisError::UnexpectedIdentity
                    &&& !self.no_identity()
                    &&& final(writer)@ == old(writer)@
                },
            },
    {
        if E::g1_is_zero(&self.alpha_g1) || E::g1_is_zero(&self.beta_g1) || E::g2_is_zero(
            &self.beta_g2,
        ) || E::g2_is_zero(&self.gamma_g2) || E::g1_is_zero(&self.delta_g1) || E::g2_is_zero(
            &self.delta_g2,
        ) {
            return Err(SynthesisError::UnexpectedIdentity);
        }
        let mut i: usize = 0;
        while i < self.ic.len()
            invariant
                i <= self.ic@.len(),
                forall|j: int| 0 <= j < i ==> !E::spec_g1_is_zero(#[trigger] self.ic@[j]),
            decreases self.ic@.len() - i,
        {
            if E::g1_is_zero(&self.ic[i]) {
                proof {
                    assert(self@.ic == self.ic@);
                    assert(E::spec_g1_is_zero(self@.ic[i as int]));
                }
                return Err(SynthesisError::UnexpectedIdentity);
            }
            i = i + 1;
        }
        assert(self.no_identity());

        let block = E::g1_to_uncompressed(&self.alpha_g1);
        write_all(writer, block.as_slice());
        let block = E::g1_to_uncompressed(&self.beta_g1);
        write_all(writer, block.as_slice());
        let block = E::g2_to_uncompressed(&self.beta_g2);
        write_all(writer, block.as_slice());
        let block = E::g2_to_uncompressed(&self.gamma_g2);
        write_all(writer, block.as_slice());
        let block = E::g1_to_uncompressed(&self.delta_g1);
        write_all(writer, block.as_slice());
        let block = E::g2_to_uncompressed(&self.delta_g2);
        write_all(writer, block.as_slice());
        write_u32_be(writer, self.ic.len() as u32);
        let ghost head: Seq<u8> = writer@;

        let mut i: usize = 0;
        while i < self.ic.len()
            invariant
                i <= self.ic@.len(),
                writer@ == head + spec_ic_bytes::<E>(self.ic@.take(i as int)),
            decreases self.ic@.len() - i,
        {
            proof {
                assert(self@.ic == self.ic@);
                assert(E::spec_g1_valid(self@.ic[i as int]));
            }
            let block = E::g1_to_uncompressed(&self.ic[i]);
            write_all(writer, block.as_slice());
            proof {
                lemma_ic_bytes_snoc::<E>(self.ic@, i as int);
            }
            i = i + 1;
            proof {
                assert(writer@ =~= head + spec_ic_bytes::<E>(self.ic@.take(i as int)));
            }
        }
        proof {
            assert(self.ic@.take(self.ic@.len() as int) =~= self.ic@);
            assert(writer@ =~= old(writer)@ + spec_vk_bytes(self@));
        }
        Ok(())
    }

    /// Reads a verifying key, validating every point, the coefficients
    /// included, and bounding the declared coefficient count before any
    /// coefficient storage is touched.
    #[verifier::loop_isolation(false)]
    pub fn read(bytes: &[u8]) -> (r: Result<Self, SynthesisError>)
        ensures
            match r {
                Ok(vk) => spec_read_vk::<E>(bytes@) == Ok::<VerifyingKeyView<E>, SynthesisError>(
                    vk@,
                ) && vk.wf(),
                Err(e) => spec_read_vk::<E>(bytes@) == Err::<VerifyingKeyView<E>, SynthesisError>(
                    e,
                ),
            },
    {
        let ghost u1 = E::spec_g1_uncompressed_size();
        let ghost u2 = E::spec_g2_uncompressed_size();
        let mut cur = ByteCursor::new(bytes);
        let alpha_g1 = match read_g1_uncomp::<E>(&mut cur) {
            Err(e) => {
                return Err(e);
            },
            Ok(p) => p,
        };
        assert(cur.spec_pos() == u1);
        let beta_g1 = match read_g1_uncomp::<E>(&mut cur) {
            Err(e) => {
                return Err(e);
            },
            Ok(p) => p,
        };
        assert(cur.spec_pos() == 2 * u1);
        let beta_g2 = match read_g2_uncomp::<E>(&mut cur) {
            Err(e) => {
                return Err(e);
            },
            Ok(q) => q,
        };
        assert(cur.spec_pos() == 2 * u1 + u2);
        let gamma_g2 = match read_g2_uncomp::<E>(&mut cur) {
            Err(e) => {
                return Err(e);
            },
            Ok(q) => q,
        };
        assert(cur.spec_pos() == 2 * u1 + 2 * u2);
        let delta_g1 = match read_g1_uncomp::<E>(&mut cur) {
            Err(e) => {
                return Err(e);
            },
            Ok(p) => p,
        };
        assert(cur.spec_pos() == 3 * u1 + 2 * u2);
        let delta_g2 = match read_g2_uncomp::<E>(&mut cur) {
            Err(e) => {
                return Err(e);
            },
            Ok(q) => q,
        };
        assert(cur.spec_pos() == 3 * u1 + 3 * u2);
        let count = match cur.read_u32_be() {
            Err(e) => {
                return Err(e);
            },
            Ok(v) => v,
        };
        if count > MAX_IC_LEN {
            return Err(SynthesisError::IoError);
        }
        let ghost pos0 = cur.spec_pos();

        let mut ic: Vec<E::G1> = Vec::new();
        let mut i: u32 = 0;
        while i < count
            invariant
                cur.wf(),
                cur.spec_data() == bytes@,
                i <= count,
                ic@.len() == i as nat,
                forall|j: int|
                    0 <= j < ic@.len() ==> E::spec_g1_valid(#[trigger] ic@[j])
                        && !E::spec_g1_is_zero(ic@[j]),
                spec_read_ic::<E>(bytes@, pos0, count as nat) == (match spec_read_ic::<E>(
                    bytes@,
                    cur.spec_pos(),
                    (count - i) as nat,
                ) {
                    Err(e) => Err::<Seq<E::G1>, SynthesisError>(e),
                    Ok(rest) => Ok::<Seq<E::G1>, SynthesisError>(ic@ + rest),
                }),
            decreases count - i,
        {
            let ghost prev = ic@;
            let p = match read_g1_uncomp::<E>(&mut cur) {
                Err(e) => {
                    return Err(e);
                },
                Ok(p) => p,
            };
            ic.push(p);
            i = i + 1;
            proof {
                assert(forall|rest: Seq<E::G1>| prev + (seq![p] + rest) =~= ic@ + rest);
            }
        }
        proof {
            assert(spec_read_ic::<E>(bytes@, pos0, count as nat) == Ok::<
                Seq<E::G1>,
                SynthesisError,
            >(ic@)) by {
                assert(ic@ + Seq::<E::G1>::empty() =~= ic@);
            }
        }
        let vk = VerifyingKey {
            alpha_g1,
            beta_g1,
            beta_g2,
            gamma_g2,
            delta_g1,
            delta_g2,
            ic,
        };
        proof {
            assert(spec_read_vk::<E>(bytes@) matches Ok(v) && v =~= vk@);
        }
        Ok(vk)
    }
}

/// Reads one uncompressed `G1` point at the cursor, rejecting truncation,
/// non-points, and the identity.
#[verifier::loop_isolation(false)]
fn read_g1_uncomp<E: Engine>(cur: &mut ByteCursor) -> (r: Result<E::G1, SynthesisError>)
    requires
        old(cur).wf(),
    ensures
        final(cur).wf(),
        final(cur).spec_data() == old(cur).spec_data(),
        r == spec_decode_g1_uncomp_at::<E>(old(cur).spec_data(), old(cur).spec_pos()),
        r matches Ok(p) ==> E::spec_g1_valid(p) && !E::spec_g1_is_zero(p) && final(cur).spec_pos()
            == old(cur).spec_pos() + E::spec_g1_uncompressed_size(),
{
    let n = E::g1_uncompressed_size();
    match cur.read_exact(n) {
        Err(e) => Err(e),
        Ok(block) => match E::g1_from_uncompressed(block.as_slice()) {
            None => Err(SynthesisError::IoError),
            Some(p) => {
                if E::g1_is_zero(&p) {
                    Err(SynthesisError::UnexpectedIdentity)
                } else {
                    proof {
                        E::law_g1_decode_valid(block@);
                    }
                    Ok(p)
                }
            },
        },
    }
}

/// Reads one uncompressed `G2` point at the cursor, rejecting truncation,
/// non-points, and the identity.
#[verifier::loop_isolation(false)]
fn read_g2_uncomp<E: Engine>(cur: &mut ByteCursor) -> (r: Result<E::G2, SynthesisError>)
    requires
        old(cur).wf(),
    ensures
        final(cur).wf(),
        final(cur).spec_data() == old(cur).spec_data(),
        r == spec_decode_g2_uncomp_at::<E>(old(cur).spec_data(), old(cur).spec_pos()),
        r matches Ok(q) ==> E::spec_g2_valid(q) && !E::spec_g2_is_zero(q) && final(cur).spec_pos()
            == old(cur).spec_pos() + E::spec_g2_uncompressed_size(),
{
    let n = E::g2_uncompressed_size();
    match cur.read_exact(n) {
        Err(e) => Err(e),
        Ok(block) => match E::g2_from_uncompressed(block.as_slice()) {
            None => Err(SynthesisError::IoError),
            Some(q) => {
                if E::g2_is_zero(&q) {
                    Err(SynthesisError::UnexpectedIdentity)
                } else {
                    proof {
                        E::law_g2_decode_valid(block@);
                    }
                    Ok(q)
                }
            },
        },
    }
}

impl<E: Engine> PartialEq for VerifyingKey<E> {
    /// Componentwise equality, the coefficient sequences included.
    #[verifier::loop_isolation(false)]
    fn eq(&self, other: &Self) -> (r: bool) {
        if !(E::g1_eq(&self.alpha_g1, &other.alpha_g1) && E::g1_eq(&self.beta_g1, &other.beta_g1)
            && E::g2_eq(&self.beta_g2, &other.beta_g2) && E::g2_eq(
            &self.gamma_g2,
            &other.gamma_g2,
        ) && E::g1_eq(&self.delta_g1, &other.delta_g1) && E::g2_eq(
            &self.delta_g2,
            &other.delta_g2,
        )) {
            return false;
        }
        if self.ic.len() != other.ic.len() {
            return false;
        }
        let mut i: usize = 0;
        while i < self.ic.len()
            invariant
                i <= self.ic@.len(),
                forall|j: int| 0 <= j < i ==> self.ic@[j] == other.ic@[j],
            decreases self.ic@.len() - i,
        {
            if !E::g1_eq(&self.ic[i], &other.ic[i]) {
                return false;
            }
            i = i + 1;
        }
        proof {
            assert(self.ic@ =~= other.ic@);
        }
        true
    }
}

impl<E: Engine> vstd::std_specs::cmp::PartialEqSpecImpl for VerifyingKey<E> {
    open spec fn obeys_eq_spec() -> bool {
        true
    }

    open spec fn eq_spec(&self, other: &Self) -> bool {
        &&& self.alpha_g1 == other.alpha_g1
        &&& self.beta_g1 == other.beta_g1
        &&& self.beta_g2 == other.beta_g2
        &&& self.gamma_g2 == other.gamma_g2
        &&& self.delta_g1 == other.delta_g1
        &&& self.delta_g2 == other.delta_g2
        &&& self.ic@ == other.ic@
    }
}

/// Whatever a coefficient parse accepts has the declared count and holds
/// only valid, non-identity points.
pub proof fn lemma_read_ic_wf<E: Engine>(bytes: Seq<u8>, pos: nat, count: nat)
    ensures
        spec_read_ic::<E>(bytes, pos, count) matches Ok(s) ==> s.len() == count && forall|i: int|
            0 <= i < s.len() ==> E::spec_g1_valid(#[trigger] s[i]) && !E::spec_g1_is_zero(s[i]),
    decreases count,
{
    if count > 0 && spec_read_ic::<E>(bytes, pos, count) is Ok {
        let u1 = E::spec_g1_uncompressed_size();
        E::law_g1_decode_valid(bytes.subrange(pos as int, (pos + u1) as int));
        lemma_read_ic_wf::<E>(bytes, pos + u1, (count - 1) as nat);
    }
}

/// Identity rejection at the parser: whatever a verifying-key parse
/// accepts is a well-formed record, the coefficients included.
pub proof fn lemma_read_vk_wf<E: Engine>(bytes: Seq<u8>)
    ensures
        spec_read_vk::<E>(bytes) matches Ok(v) ==> v.wf(),
{
    let u1 = E::spec_g1_uncompressed_size();
    let u2 = E::spec_g2_uncompressed_size();
    if spec_read_vk::<E>(bytes) is Ok {
        E::law_g1_decode_valid(bytes.subrange(0, u1 as int));
        E::law_g1_decode_valid(bytes.subrange(u1 as int, (2 * u1) as int));
        E::law_g2_decode_valid(bytes.subrange((2 * u1) as int, (2 * u1 + u2) as int));
        E::law_g2_decode_valid(bytes.subrange((2 * u1 + u2) as int, (2 * u1 + 2 * u2) as int));
        E::law_g1_decode_valid(bytes.subrange((2 * u1 + 2 * u2) as int, (3 * u1 + 2 * u2) as int));
        E::law_g2_decode_valid(bytes.subrange((3 * u1 + 2 * u2) as int, (3 * u1 + 3 * u2) as int));
        let cpos = 3 * u1 + 3 * u2;
        let count = be_value(bytes.subrange(cpos as int, (cpos + 4) as int));
        lemma_read_ic_wf::<E>(bytes, cpos + 4, count);
    }
}

/// Reading a verifying key's own encoding yields the key back: the round
/// trip over the wire format, for every well-formed record.
pub proof fn lemma_vk_roundtrip<E: Engine>(v: VerifyingKeyView<E>)
    requires
        v.wf(),
    ensures
        spec_read_vk::<E>(spec_vk_bytes::<E>(v)) == Ok::<VerifyingKeyView<E>, SynthesisError>(v),
{
    let u1 = E::spec_g1_uncompressed_size();
    let u2 = E::spec_g2_uncompressed_size();
    E::law_g1_codec(v.alpha_g1);
    E::law_g1_codec(v.beta_g1);
    E::law_g2_codec(v.beta_g2);
    E::law_g2_codec(v.gamma_g2);
    E::law_g1_codec(v.delta_g1);
    E::law_g2_codec(v.delta_g2);
    let b1 = E::spec_g1_uncompressed(v.alpha_g1);
    let b2 = E::spec_g1_uncompressed(v.beta_g1);
    let b3 = E::spec_g2_uncompressed(v.beta_g2);
    let b4 = E::spec_g2_uncompressed(v.gamma_g2);
    let b5 = E::spec_g1_uncompressed(v.delta_g1);
    let b6 = E::spec_g2_uncompressed(v.delta_g2);
    let cnt = be_encode(v.ic.len(), 4);
    let icb = spec_ic_bytes::<E>(v.ic);
    let bytes = spec_vk_bytes::<E>(v);
    lemma_be_encode_len(v.ic.len(), 4);
    lemma_ic_bytes_len::<E>(v.ic);
    let cpos = 3 * u1 + 3 * u2;
    assert(bytes.subrange(0, u1 as int) =~= b1);
    assert(bytes.subrange(u1 as int, (2 * u1) as int) =~= b2);
    assert(bytes.subrange((2 * u1) as int, (2 * u1 + u2) as int) =~= b3);
    assert(bytes.subrange((2 * u1 + u2) as int, (2 * u1 + 2 * u2) as int) =~= b4);
    assert(bytes.subrange((2 * u1 + 2 * u2) as int, (3 * u1 + 2 * u2) as int) =~= b5);
    assert(bytes.subrange((3 * u1 + 2 * u2) as int, (3 * u1 + 3 * u2) as int) =~= b6);
    assert(bytes.subrange(cpos as int, (cpos + 4) as int) =~= cnt);
    assert(spec_decode_g1_uncomp_at::<E>(bytes, 0) == Ok::<E::G1, SynthesisError>(v.alpha_g1));
    assert(spec_decode_g1_uncomp_at::<E>(bytes, u1) == Ok::<E::G1, SynthesisError>(v.beta_g1));
    assert(spec_decode_g2_uncomp_at::<E>(bytes, 2 * u1) == Ok::<E::G2, SynthesisError>(v.beta_g2));
    assert(spec_decode_g2_uncomp_at::<E>(bytes, 2 * u1 + u2) == Ok::<E::G2, SynthesisError>(
        v.gamma_g2,
    ));
    assert(spec_decode_g1_uncomp_at::<E>(bytes, 2 * u1 + 2 * u2) == Ok::<E::G1, SynthesisError>(
        v.delta_g1,
    ));
    assert(spec_decode_g2_uncomp_at::<E>(bytes, 3 * u1 + 2 * u2) == Ok::<E::G2, SynthesisError>(
        v.delta_g2,
    ));
    lemma_pow256_values();
    lemma_be_roundtrip(v.ic.len(), 4);
    assert(be_value(bytes.subrange(cpos as int, (cpos + 4) as int)) == v.ic.len());
    assert(bytes.subrange((cpos + 4) as int, (cpos + 4 + icb.len()) as int) =~= icb);
    lemma_read_ic_of_bytes::<E>(bytes, cpos + 4, v.ic);
    assert(spec_read_vk::<E>(bytes) matches Ok(parsed) && parsed =~= v);
}

} // verus!
