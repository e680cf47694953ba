use bellman_verifier::dummy_engine::{DummyEngine, Fr, TOY_MODULUS};
use bellman_verifier::errors::SynthesisError;
use bellman_verifier::groth16::{prepare_verifying_key, verify_proof};
use bellman_verifier::records::{Proof, VerifyingKey};

fn fr(v: u64) -> Fr {
    Fr { rep: v }
}

/// The toy scenario's key: alpha, beta, gamma and delta all equal to the
/// generator, with `ic` as given.
fn generator_vk(ic: Vec<Fr>) -> VerifyingKey<DummyEngine> {
    VerifyingKey {
        alpha_g1: fr(1),
        beta_g1: fr(1),
        beta_g2: fr(1),
        gamma_g2: fr(1),
        delta_g1: fr(1),
        delta_g2: fr(1),
        ic,
    }
}

/// An honestly constructed proof for the generator key with no public
/// inputs: `a = s * G1`, `b = (1/s) * G2`, and `c` chosen to satisfy the
/// pairing equation for `s = 2`.
fn honest_proof() -> Proof<DummyEngine> {
    // 2 * 32769 = 65538, which is 1 modulo 65537, so b is a's inverse
    // scalar; c = -1 balances the equation 1 = 1 + 1 + c.
    Proof { a: fr(2), b: fr(32769), c: fr(TOY_MODULUS - 1) }
}

#[test]
fn prepared_key_holds_the_negated_points() {
    let vk = generator_vk(vec![fr(1)]);
    let pvk = prepare_verifying_key(&vk);
    assert_eq!(pvk.alpha_g1_beta_g2, fr(1));
    assert_eq!(pvk.neg_gamma_g2, fr(TOY_MODULUS - 1));
    assert_eq!(pvk.neg_delta_g2, fr(TOY_MODULUS - 1));
    assert_eq!(pvk.ic.len(), 1);
    assert_eq!(pvk.ic[0], fr(1));
}

#[test]
fn honest_proof_verifies() {
    let vk = generator_vk(vec![fr(1)]);
    let pvk = prepare_verifying_key(&vk);
    let inputs: Vec<Fr> = vec![];
    assert_eq!(verify_proof(&pvk, &honest_proof(), &inputs).unwrap(), true);
}

#[test]
fn unsatisfying_c_is_rejected() {
    let vk = generator_vk(vec![fr(1)]);
    let pvk = prepare_verifying_key(&vk);
    let inputs: Vec<Fr> = vec![];
    let forged = Proof::<DummyEngine> { a: fr(2), b: fr(32769), c: fr(5) };
    assert_eq!(verify_proof(&pvk, &forged, &inputs).unwrap(), false);
}

#[test]
fn input_count_mismatch_is_malformed() {
    let vk = generator_vk(vec![fr(1)]);
    let pvk = prepare_verifying_key(&vk);
    let inputs: Vec<Fr> = vec![fr(1)];
    assert!(matches!(
        verify_proof(&pvk, &honest_proof(), &inputs),
        Err(SynthesisError::MalformedVerifyingKey)
    ));
    let empty_vk = generator_vk(vec![]);
    let empty_pvk = prepare_verifying_key(&empty_vk);
    let none: Vec<Fr> = vec![];
    assert!(matches!(
        verify_proof(&empty_pvk, &honest_proof(), &none),
        Err(SynthesisError::MalformedVerifyingKey)
    ));
}

#[test]
fn proof_with_one_public_input_verifies() {
    // With ic = [G, G] and input x, the combined point is 1 + x; the
    // equation 1 = 1 + (1 + x) + c holds for x = 5 at c = -6.
    let vk = generator_vk(vec![fr(1), fr(1)]);
    let pvk = prepare_verifying_key(&vk);
    let prf = Proof::<DummyEngine> { a: fr(2), b: fr(32769), c: fr(TOY_MODULUS - 6) };
    let inputs: Vec<Fr> = vec![fr(5)];
    assert_eq!(verify_proof(&pvk, &prf, &inputs).unwrap(), true);
}

#[test]
fn changed_public_input_is_rejected() {
    let vk = generator_vk(vec![fr(1), fr(1)]);
    let pvk = prepare_verifying_key(&vk);
    let prf = Proof::<DummyEngine> { a: fr(2), b: fr(32769), c: fr(TOY_MODULUS - 6) };
    let inputs: Vec<Fr> = vec![fr(6)];
    assert_eq!(verify_proof(&pvk, &prf, &inputs).unwrap(), false);
}

#[test]
fn every_single_byte_flip_is_rejected() {
    let vk = generator_vk(vec![fr(1)]);
    let pvk = prepare_verifying_key(&vk);
    let inputs: Vec<Fr> = vec![];
    let mut wire: Vec<u8> = Vec::new();
    honest_proof().write(&mut wire).unwrap();
    assert_eq!(verify_proof(&pvk, &honest_proof(), &inputs).unwrap(), true);
    for i in 0..wire.len() {
        for flip in 1..=255u8 {
            let mut tampered = wire.clone();
            tampered[i] ^= flip;
            match Proof::<DummyEngine>::read(&tampered) {
                Err(_) => {},
                Ok(p) => {
                    assert_eq!(verify_proof(&pvk, &p, &inputs).unwrap(), false);
                },
            }
        }
    }
}

#[test]
fn verification_reads_the_proof_from_its_wire_form() {
    let vk = generator_vk(vec![fr(1)]);
    let pvk = prepare_verifying_key(&vk);
    let inputs: Vec<Fr> = vec![];
    let mut wire: Vec<u8> = Vec::new();
    honest_proof().write(&mut wire).unwrap();
    let parsed = Proof::<DummyEngine>::read(&wire).unwrap();
    assert_eq!(verify_proof(&pvk, &parsed, &inputs).unwrap(), true);
}
