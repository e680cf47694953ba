//! Key preparation and the pairing-based verification protocol.
//!
//! Preparation turns a verifying key into a [`PreparedVerifyingKey`]:
//! the pairing of `alpha_g1` and `beta_g2` is evaluated once, `gamma_g2`
//! and `delta_g2` are negated and put into the engine's prepared form, and
//! the input coefficients are copied.  Verification then needs a single
//! multi-pairing product: negating the two key points up front replaces
//! the division in the canonical Groth16 equation, so the three Miller
//! loops share one final exponentiation and no target-group inversion is
//! evaluated.  [`lemma_pairing_reformulation`] proves that this trick is
//! sound: the reformulated acceptance test agrees with the canonical
//! pairing equation.

use crate::engine::Engine;
use crate::errors::SynthesisError;
use crate::records::{Proof, VerifyingKey, VerifyingKeyView, MAX_IC_LEN};
use vstd::prelude::*;

verus! {

/// A verifying key transformed for repeated pairing checks.
#[verifier::reject_recursive_types(E)]
pub struct PreparedVerifyingKey<E: Engine> {
    /// The pairing of `alpha_g1` and `beta_g2`.
    pub alpha_g1_beta_g2: E::Gt,
    /// The negation of `gamma_g2`, in prepared form.
    pub neg_gamma_g2: E::G2Prepared,
    /// The negation of `delta_g2`, in prepared form.
    pub neg_delta_g2: E::G2Prepared,
    /// The input coefficients, copied from the source key.
    pub ic: Vec<E::G1>,
}

impl<E: Engine> PreparedVerifyingKey<E> {
    /// Every field is well-formed and the coefficient count is bounded.
    pub open spec fn wf(self) -> bool {
        &&& E::spec_gt_valid(self.alpha_g1_beta_g2)
        &&& E::spec_g2_prepared_valid(self.neg_gamma_g2)
        &&& E::spec_g2_prepared_valid(self.neg_delta_g2)
        &&& self.ic@.len() <= MAX_IC_LEN as nat
        &&& forall|i: int|
            0 <= i < self.ic@.len() ==> E::spec_g1_valid(#[trigger] self.ic@[i])
                && !E::spec_g1_is_zero(self.ic@[i])
    }
}

/// Performs the one-time preparation of a verifying key.
#[verifier::loop_isolation(false)]
pub fn prepare_verifying_key<E: Engine>(vk: &VerifyingKey<E>) -> (r: PreparedVerifyingKey<E>)
    requires
        vk.wf(),
    ensures
        r.alpha_g1_beta_g2 == E::spec_pairing(vk.alpha_g1, vk.beta_g2),
        r.neg_gamma_g2 == E::spec_g2_prepare(E::spec_g2_neg(vk.gamma_g2)),
        r.neg_delta_g2 == E::spec_g2_prepare(E::spec_g2_neg(vk.delta_g2)),
        r.ic@ == vk.ic@,
        r.wf(),
{
    let gamma_neg = E::g2_neg(&vk.gamma_g2);
    let delta_neg = E::g2_neg(&vk.delta_g2);
    proof {
        E::law_g2_ops_valid(vk.gamma_g2);
        E::law_g2_ops_valid(vk.delta_g2);
        E::law_g2_ops_valid(vk.beta_g2);
        E::law_pairing_valid(vk.alpha_g1, vk.beta_g2, E::spec_g2_prepare(vk.beta_g2));
    }
    let mut ic: Vec<E::G1> = Vec::new();
    let mut i: usize = 0;
    while i < vk.ic.len()
        invariant
            i <= vk.ic@.len(),
            ic@ == vk.ic@.take(i as int),
        decreases vk.ic@.len() - i,
    {
        ic.push(E::g1_clone(&vk.ic[i]));
        i = i + 1;
        proof {
            assert(ic@ =~= vk.ic@.take(i as int));
        }
    }
    proof {
        assert(vk.ic@.take(vk.ic@.len() as int) =~= vk.ic@);
        E::law_g2_ops_valid(gamma_neg);
        E::law_g2_ops_valid(delta_neg);
        assert(vk@.ic == vk.ic@);
        assert forall|j: int|
            0 <= j < vk.ic@.len() implies E::spec_g1_valid(#[trigger] vk.ic@[j])
            && !E::spec_g1_is_zero(vk.ic@[j]) by {
            assert(E::spec_g1_valid(vk@.ic[j]));
            assert(!E::spec_g1_is_zero(vk@.ic[j]));
        }
    }
    PreparedVerifyingKey {
        alpha_g1_beta_g2: E::pairing(&vk.alpha_g1, &vk.beta_g2),
        neg_gamma_g2: E::g2_prepare(&gamma_neg),
        neg_delta_g2: E::g2_prepare(&delta_neg),
        ic,
    }
}

/// The multi-scalar combination folded from position `k` on: the
/// accumulator plus the remaining `inputs[k..]` weighted coefficients.
pub open spec fn spec_vk_x_from<E: Engine>(
    acc: E::G1,
    ic: Seq<E::G1>,
    inputs: Seq<E::Fr>,
    k: nat,
) -> E::G1
    decreases inputs.len() - k,
{
    if k >= inputs.len() {
        acc
    } else {
        spec_vk_x_from::<E>(
            E::spec_g1_add(acc, E::spec_g1_mul(ic[(k + 1) as int], inputs[k as int])),
            ic,
            inputs,
            k + 1,
        )
    }
}

/// The combined public-input point:
/// `ic[0] + inputs[0] * ic[1] + ... + inputs[n-1] * ic[n]`.
pub open spec fn spec_vk_x<E: Engine>(ic: Seq<E::G1>, inputs: Seq<E::Fr>) -> E::G1
    recommends
        ic.len() == inputs.len() + 1,
{
    spec_vk_x_from::<E>(ic[0], ic, inputs, 0)
}

/// The multi-scalar combination stays within the valid points.
pub proof fn lemma_vk_x_from_valid<E: Engine>(acc: E::G1, ic: Seq<E::G1>, inputs: Seq<E::Fr>, k: nat)
    requires
        E::spec_g1_valid(acc),
        ic.len() == inputs.len() + 1,
        forall|i: int| 0 <= i < ic.len() ==> E::spec_g1_valid(#[trigger] ic[i]),
        forall|i: int| 0 <= i < inputs.len() ==> E::spec_fr_valid(#[trigger] inputs[i]),
    ensures
        E::spec_g1_valid(spec_vk_x_from::<E>(acc, ic, inputs, k)),
    decreases inputs.len() - k,
{
    if k < inputs.len() {
        E::law_g1_ops_valid(ic[(k + 1) as int], ic[(k + 1) as int], inputs[k as int]);
        let term = E::spec_g1_mul(ic[(k + 1) as int], inputs[k as int]);
        E::law_g1_ops_valid(acc, term, inputs[k as int]);
        lemma_vk_x_from_valid::<E>(E::spec_g1_add(acc, term), ic, inputs, k + 1);
    }
}

/// Whether the reformulated pairing equation accepts: the product of the
/// three Miller loops, after final exponentiation, equals the prepared
/// `alpha`-`beta` pairing.
pub open spec fn spec_accepts<E: Engine>(
    pvk: PreparedVerifyingKey<E>,
    prf: Proof<E>,
    inputs: Seq<E::Fr>,
) -> bool {
    E::spec_final_exp(
        E::spec_gt_mul(
            E::spec_gt_mul(
                E::spec_miller(prf.a, E::spec_g2_prepare(prf.b)),
                E::spec_miller(spec_vk_x::<E>(pvk.ic@, inputs), pvk.neg_gamma_g2),
            ),
            E::spec_miller(prf.c, pvk.neg_delta_g2),
        ),
    ) == pvk.alpha_g1_beta_g2
}

/// Checks a proof against a prepared verifying key and the public inputs.
///
/// A key whose coefficient count does not match the input vector is
/// refused with [`SynthesisError::MalformedVerifyingKey`] before any
/// pairing work; otherwise the single boolean outcome of the reformulated
/// pairing equation is returned.
#[verifier::loop_isolation(false)]
pub fn verify_proof<E: Engine>(
    pvk: &PreparedVerifyingKey<E>,
    prf: &Proof<E>,
    public_inputs: &[E::Fr],
) -> (r: Result<bool, SynthesisError>)
    requires
        pvk.wf(),
        prf.wf(),
        forall|i: int|
            0 <= i < public_inputs@.len() ==> E::spec_fr_valid(#[trigger] public_inputs@[i]),
    ensures
        match r {
            Ok(accept) => public_inputs@.len() + 1 == pvk.ic@.len() && accept == spec_accepts::<E>(
                *pvk,
                *prf,
                public_inputs@,
            ),
            Err(e) => e == SynthesisError::MalformedVerifyingKey && public_inputs@.len() + 1
                != pvk.ic@.len(),
        },
{
    if pvk.ic.len() == 0 || public_inputs.len() != pvk.ic.len() - 1 {
        return Err(SynthesisError::MalformedVerifyingKey);
    }

    let mut acc = E::g1_clone(&pvk.ic[0]);
    let mut i: usize = 0;
    while i < public_inputs.len()
        invariant
            i <= public_inputs@.len(),
            E::spec_g1_valid(acc),
            spec_vk_x_from::<E>(acc, pvk.ic@, public_inputs@, i as nat) == spec_vk_x::<E>(
                pvk.ic@,
                public_inputs@,
            ),
        decreases public_inputs@.len() - i,
    {
        let term = E::g1_mul(&pvk.ic[i + 1], vstd::slice::slice_index_get(public_inputs, i));
        proof {
            E::law_g1_ops_valid(pvk.ic@[i + 1], pvk.ic@[i + 1], public_inputs@[i as int]);
            E::law_g1_ops_valid(acc, term, public_inputs@[i as int]);
        }
        acc = E::g1_add(&acc, &term);
        i = i + 1;
    }

    let b_prep = E::g2_prepare(&prf.b);
    proof {
        E::law_g2_ops_valid(prf.b);
        E::law_pairing_valid(prf.a, prf.b, b_prep);
        E::law_pairing_valid(acc, prf.b, pvk.neg_gamma_g2);
        E::law_pairing_valid(prf.c, prf.b, pvk.neg_delta_g2);
        E::law_gt_ops_valid(
            E::spec_miller(prf.a, b_prep),
            E::spec_miller(acc, pvk.neg_gamma_g2),
        );
        E::law_gt_ops_valid(
            E::spec_gt_mul(
                E::spec_miller(prf.a, b_prep),
                E::spec_miller(acc, pvk.neg_gamma_g2),
            ),
            E::spec_miller(prf.c, pvk.neg_delta_g2),
        );
    }
    let f = E::miller_loop_3(&prf.a, &b_prep, &acc, &pvk.neg_gamma_g2, &prf.c, &pvk.neg_delta_g2);
    let t = E::final_exponentiation(&f);
    Ok(E::gt_eq(&t, &pvk.alpha_g1_beta_g2))
}

/// In the target group, multiplying by an element and then by its inverse
/// leads back to the start.
proof fn lemma_gt_unmove<E: Engine>(a: E::Gt, b: E::Gt)
    requires
        E::spec_gt_valid(a),
        E::spec_gt_valid(b),
    ensures
        E::spec_gt_mul(E::spec_gt_mul(a, b), E::spec_gt_inv(b)) == a,
        E::spec_gt_mul(E::spec_gt_mul(a, E::spec_gt_inv(b)), b) == a,
{
    E::law_gt_ops_valid(b, b);
    let ib = E::spec_gt_inv(b);
    E::law_gt_group(a, b, ib);
    assert(E::spec_gt_mul(E::spec_gt_mul(a, b), ib) == E::spec_gt_mul(a, E::spec_gt_mul(b, ib)));
    E::law_gt_group(b, b, b);
    assert(E::spec_gt_mul(b, ib) == E::spec_gt_one());
    E::law_gt_group(a, b, b);
    assert(E::spec_gt_mul(a, E::spec_gt_one()) == a);
    E::law_gt_group(a, ib, b);
    assert(E::spec_gt_mul(E::spec_gt_mul(a, ib), b) == E::spec_gt_mul(a, E::spec_gt_mul(ib, b)));
    E::law_gt_group(ib, b, b);
    assert(E::spec_gt_mul(ib, b) == E::spec_gt_mul(b, ib));
}

/// In the target group, the order of two successive factors can be
/// exchanged.
proof fn lemma_gt_swap<E: Engine>(a: E::Gt, b: E::Gt, c: E::Gt)
    requires
        E::spec_gt_valid(a),
        E::spec_gt_valid(b),
        E::spec_gt_valid(c),
    ensures
        E::spec_gt_mul(E::spec_gt_mul(a, b), c) == E::spec_gt_mul(E::spec_gt_mul(a, c), b),
{
    E::law_gt_group(a, b, c);
    E::law_gt_group(b, c, a);
    E::law_gt_group(a, c, b);
    assert(E::spec_gt_mul(E::spec_gt_mul(a, b), c) == E::spec_gt_mul(a, E::spec_gt_mul(b, c)));
    assert(E::spec_gt_mul(b, c) == E::spec_gt_mul(c, b));
    assert(E::spec_gt_mul(E::spec_gt_mul(a, c), b) == E::spec_gt_mul(a, E::spec_gt_mul(c, b)));
}

/// The cancellation the reformulation rests on: dividing by `y` and `z`
/// (as multiplication by their inverses) yields `t` exactly when `x` is
/// the product of `t`, `y` and `z`.
pub proof fn lemma_gt_cancel<E: Engine>(x: E::Gt, y: E::Gt, z: E::Gt, t: E::Gt)
    requires
        E::spec_gt_valid(x),
        E::spec_gt_valid(y),
        E::spec_gt_valid(z),
        E::spec_gt_valid(t),
    ensures
        (E::spec_gt_mul(E::spec_gt_mul(x, E::spec_gt_inv(y)), E::spec_gt_inv(z)) == t) <==> (x
            == E::spec_gt_mul(E::spec_gt_mul(t, y), z)),
{
    let iy = E::spec_gt_inv(y);
    let iz = E::spec_gt_inv(z);
    E::law_gt_ops_valid(y, y);
    E::law_gt_ops_valid(z, z);
    E::law_gt_ops_valid(x, iy);
    E::law_gt_ops_valid(E::spec_gt_mul(x, iy), iz);
    E::law_gt_ops_valid(t, y);
    E::law_gt_ops_valid(E::spec_gt_mul(t, y), z);
    E::law_gt_ops_valid(t, z);
    if E::spec_gt_mul(E::spec_gt_mul(x, iy), iz) == t {
        lemma_gt_swap::<E>(t, y, z);
        lemma_gt_unmove::<E>(E::spec_gt_mul(x, iy), z);
        lemma_gt_unmove::<E>(x, y);
        assert(E::spec_gt_mul(t, z) == E::spec_gt_mul(x, iy));
        assert(E::spec_gt_mul(E::spec_gt_mul(t, z), y) == x);
    }
    if x == E::spec_gt_mul(E::spec_gt_mul(t, y), z) {
        lemma_gt_swap::<E>(t, y, z);
        lemma_gt_unmove::<E>(E::spec_gt_mul(t, z), y);
        lemma_gt_unmove::<E>(t, z);
        assert(E::spec_gt_mul(x, iy) == E::spec_gt_mul(t, z));
        assert(E::spec_gt_mul(E::spec_gt_mul(x, iy), iz) == t);
    }
}

/// Soundness of the negation trick: the reformulated check — three Miller
/// loops against `b`, the negated `gamma`, and the negated `delta`, one
/// final exponentiation, then comparison with `ab` — accepts exactly when
/// the canonical Groth16 pairing equation
/// `pairing(a, b) == ab * pairing(x, gamma) * pairing(c, delta)` holds.
pub proof fn lemma_pairing_reformulation<E: Engine>(
    a: E::G1,
    b: E::G2,
    c: E::G1,
    x: E::G1,
    gamma: E::G2,
    delta: E::G2,
    ab: E::Gt,
)
    requires
        E::spec_g1_valid(a),
        E::spec_g2_valid(b),
        E::spec_g1_valid(c),
        E::spec_g1_valid(x),
        E::spec_g2_valid(gamma),
        E::spec_g2_valid(delta),
        E::spec_gt_valid(ab),
    ensures
        (E::spec_final_exp(
            E::spec_gt_mul(
                E::spec_gt_mul(
                    E::spec_miller(a, E::spec_g2_prepare(b)),
                    E::spec_miller(x, E::spec_g2_prepare(E::spec_g2_neg(gamma))),
                ),
                E::spec_miller(c, E::spec_g2_prepare(E::spec_g2_neg(delta))),
            ),
        ) == ab) <==> (E::spec_pairing(a, b) == E::spec_gt_mul(
            E::spec_gt_mul(ab, E::spec_pairing(x, gamma)),
            E::spec_pairing(c, delta),
        )),
{
    E::law_g2_ops_valid(b);
    E::law_g2_ops_valid(gamma);
    E::law_g2_ops_valid(delta);
    let ngamma = E::spec_g2_neg(gamma);
    let ndelta = E::spec_g2_neg(delta);
    E::law_g2_ops_valid(ngamma);
    E::law_g2_ops_valid(ndelta);
    let m1 = E::spec_miller(a, E::spec_g2_prepare(b));
    let m2 = E::spec_miller(x, E::spec_g2_prepare(ngamma));
    let m3 = E::spec_miller(c, E::spec_g2_prepare(ndelta));
    E::law_pairing_valid(a, b, E::spec_g2_prepare(b));
    E::law_pairing_valid(x, ngamma, E::spec_g2_prepare(ngamma));
    E::law_pairing_valid(c, ndelta, E::spec_g2_prepare(ndelta));
    E::law_gt_ops_valid(m1, m2);
    E::law_final_exp_hom(E::spec_gt_mul(m1, m2), m3);
    E::law_final_exp_hom(m1, m2);
    E::law_miller_pairing(a, b);
    E::law_miller_pairing(x, ngamma);
    E::law_miller_pairing(c, ndelta);
    E::law_pairing_neg(x, gamma);
    E::law_pairing_neg(c, delta);
    let bigx = E::spec_pairing(a, b);
    let bigy = E::spec_pairing(x, gamma);
    let bigz = E::spec_pairing(c, delta);
    E::law_pairing_valid(a, b, E::spec_g2_prepare(b));
    E::law_pairing_valid(x, gamma, E::spec_g2_prepare(b));
    E::law_pairing_valid(c, delta, E::spec_g2_prepare(b));
    assert(E::spec_final_exp(E::spec_gt_mul(E::spec_gt_mul(m1, m2), m3)) == E::spec_gt_mul(
        E::spec_gt_mul(bigx, E::spec_gt_inv(bigy)),
        E::spec_gt_inv(bigz),
    ));
    lemma_gt_cancel::<E>(bigx, bigy, bigz, ab);
}

/// What verification means against the source key: with a prepared key
/// derived from `vk`, the acceptance test agrees with the canonical
/// pairing equation over `vk`'s own points.
pub proof fn lemma_verify_meaning<E: Engine>(
    vk: VerifyingKeyView<E>,
    pvk: PreparedVerifyingKey<E>,
    prf: Proof<E>,
    inputs: Seq<E::Fr>,
)
    requires
        vk.wf(),
        prf.wf(),
        pvk.alpha_g1_beta_g2 == E::spec_pairing(vk.alpha_g1, vk.beta_g2),
        pvk.neg_gamma_g2 == E::spec_g2_prepare(E::spec_g2_neg(vk.gamma_g2)),
        pvk.neg_delta_g2 == E::spec_g2_prepare(E::spec_g2_neg(vk.delta_g2)),
        pvk.ic@ == vk.ic,
        inputs.len() + 1 == vk.ic.len(),
        forall|i: int| 0 <= i < inputs.len() ==> E::spec_fr_valid(#[trigger] inputs[i]),
    ensures
        spec_accepts::<E>(pvk, prf, inputs) <==> (E::spec_pairing(prf.a, prf.b) == E::spec_gt_mul(
            E::spec_gt_mul(
                E::spec_pairing(vk.alpha_g1, vk.beta_g2),
                E::spec_pairing(spec_vk_x::<E>(vk.ic, inputs), vk.gamma_g2),
            ),
            E::spec_pairing(prf.c, vk.delta_g2),
        )),
{
    let x = spec_vk_x::<E>(vk.ic, inputs);
    lemma_vk_x_from_valid::<E>(vk.ic[0], vk.ic, inputs, 0);
    E::law_g2_ops_valid(vk.beta_g2);
    E::law_pairing_valid(vk.alpha_g1, vk.beta_g2, E::spec_g2_prepare(vk.beta_g2));
    lemma_pairing_reformulation::<E>(
        prf.a,
        prf.b,
        prf.c,
        x,
        vk.gamma_g2,
        vk.delta_g2,
        E::spec_pairing(vk.alpha_g1, vk.beta_g2),
    );
}

} // verus!
