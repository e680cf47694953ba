use bellman_verifier::bytes::{u32_from_be_bytes, u32_to_be_bytes};
use bellman_verifier::cursor::ByteCursor;
use bellman_verifier::dummy_engine::{DummyEngine, Fr};
use bellman_verifier::errors::SynthesisError;
use bellman_verifier::records::{Proof, VerifyingKey, MAX_IC_LEN};

fn fr(v: u64) -> Fr {
    Fr { rep: v }
}

fn sample_proof() -> Proof<DummyEngine> {
    Proof { a: fr(2), b: fr(3), c: fr(4) }
}

fn sample_vk() -> VerifyingKey<DummyEngine> {
    VerifyingKey {
        alpha_g1: fr(1),
        beta_g1: fr(5),
        beta_g2: fr(7),
        gamma_g2: fr(11),
        delta_g1: fr(13),
        delta_g2: fr(17),
        ic: vec![fr(19), fr(23)],
    }
}

#[test]
fn u32_round_trips_through_big_endian_bytes() {
    let bytes = u32_to_be_bytes(0xDEAD_BEEF);
    assert_eq!(bytes, vec![0xDEu8, 0xAD, 0xBE, 0xEF]);
    assert_eq!(u32_from_be_bytes(&bytes), 0xDEAD_BEEF);
    assert_eq!(u32_to_be_bytes(0), vec![0u8, 0, 0, 0]);
    assert_eq!(u32_from_be_bytes(&[0u8, 1, 0, 1]), 65537);
}

#[test]
fn cursor_partial_read_stops_at_the_end() {
    let data: Vec<u8> = vec![9, 8, 7];
    let mut cur = ByteCursor::new(&data);
    assert_eq!(cur.read(2), vec![9u8, 8]);
    assert_eq!(cur.read(5), vec![7u8]);
    assert_eq!(cur.read(5), Vec::<u8>::new());
}

#[test]
fn cursor_reads_blocks_and_fails_past_the_end() {
    let data: Vec<u8> = vec![1, 2, 3, 4, 5];
    let mut cur = ByteCursor::new(&data);
    assert_eq!(cur.read_exact(2).unwrap(), vec![1u8, 2]);
    assert!(matches!(cur.read_exact(4), Err(SynthesisError::IoError)));
    assert_eq!(cur.read_exact(3).unwrap(), vec![3u8, 4, 5]);
    let mut cur2 = ByteCursor::new(&data);
    assert_eq!(cur2.read_u32_be().unwrap(), 0x01020304);
    assert!(matches!(cur2.read_u32_be(), Err(SynthesisError::IoError)));
}

#[test]
fn proof_wire_format_is_exact() {
    let mut out: Vec<u8> = Vec::new();
    sample_proof().write(&mut out).unwrap();
    assert_eq!(
        out,
        vec![0u8, 0, 0, 2, 0, 0, 0, 0, 0, 0, 0, 3, 0, 0, 0, 4]
    );
}

#[test]
fn proof_round_trips() {
    let p = sample_proof();
    let mut out: Vec<u8> = Vec::new();
    p.write(&mut out).unwrap();
    let q = Proof::<DummyEngine>::read(&out).unwrap();
    assert!(q == p);
}

#[test]
fn proof_read_ignores_trailing_bytes() {
    let p = sample_proof();
    let mut out: Vec<u8> = Vec::new();
    p.write(&mut out).unwrap();
    out.push(0xAB);
    out.push(0xCD);
    let q = Proof::<DummyEngine>::read(&out).unwrap();
    assert!(q == p);
}

#[test]
fn proof_write_rejects_identity_points() {
    let mut out: Vec<u8> = Vec::new();
    let p = Proof::<DummyEngine> { a: fr(0), b: fr(3), c: fr(4) };
    assert!(matches!(
        p.write(&mut out),
        Err(SynthesisError::UnexpectedIdentity)
    ));
    assert!(out.is_empty());
    let p = Proof::<DummyEngine> { a: fr(2), b: fr(0), c: fr(4) };
    assert!(matches!(
        p.write(&mut out),
        Err(SynthesisError::UnexpectedIdentity)
    ));
    let p = Proof::<DummyEngine> { a: fr(2), b: fr(3), c: fr(0) };
    assert!(matches!(
        p.write(&mut out),
        Err(SynthesisError::UnexpectedIdentity)
    ));
    assert!(out.is_empty());
}

#[test]
fn proof_read_rejects_identity_points() {
    // A zero block is a valid encoding of the group identity.
    let bytes: Vec<u8> = vec![0, 0, 0, 0, 0, 0, 0, 0, 0, 0, 0, 3, 0, 0, 0, 4];
    assert!(matches!(
        Proof::<DummyEngine>::read(&bytes),
        Err(SynthesisError::UnexpectedIdentity)
    ));
    let bytes: Vec<u8> = vec![0, 0, 0, 2, 0, 0, 0, 0, 0, 0, 0, 0, 0, 0, 0, 4];
    assert!(matches!(
        Proof::<DummyEngine>::read(&bytes),
        Err(SynthesisError::UnexpectedIdentity)
    ));
}

#[test]
fn proof_read_rejects_blocks_that_are_no_point() {
    // 65537 equals the toy modulus: no point has that encoding.
    let bytes: Vec<u8> = vec![0, 1, 0, 1, 0, 0, 0, 0, 0, 0, 0, 3, 0, 0, 0, 4];
    assert!(matches!(
        Proof::<DummyEngine>::read(&bytes),
        Err(SynthesisError::IoError)
    ));
    let bytes: Vec<u8> = vec![0, 0, 0, 2, 0xFF, 0xFF, 0xFF, 0xFF, 0xFF, 0xFF, 0xFF, 0xFF, 0, 0, 0, 4];
    assert!(matches!(
        Proof::<DummyEngine>::read(&bytes),
        Err(SynthesisError::IoError)
    ));
}

#[test]
fn proof_read_rejects_every_truncation() {
    let p = sample_proof();
    let mut out: Vec<u8> = Vec::new();
    p.write(&mut out).unwrap();
    for len in 0..out.len() {
        let r = Proof::<DummyEngine>::read(&out[..len]);
        assert!(matches!(r, Err(SynthesisError::IoError)));
    }
}

#[test]
fn vk_wire_format_is_exact() {
    let vk = sample_vk();
    let mut out: Vec<u8> = Vec::new();
    vk.write(&mut out).unwrap();
    assert_eq!(out.len(), 8 + 8 + 16 + 16 + 8 + 16 + 4 + 2 * 8);
    assert_eq!(&out[0..8], &[0u8, 0, 0, 0, 0, 0, 0, 1]);
    assert_eq!(&out[8..16], &[0u8, 0, 0, 0, 0, 0, 0, 5]);
    assert_eq!(&out[16..32], &[0u8, 0, 0, 0, 0, 0, 0, 0, 0, 0, 0, 0, 0, 0, 0, 7]);
    assert_eq!(
        &out[32..48],
        &[0u8, 0, 0, 0, 0, 0, 0, 0, 0, 0, 0, 0, 0, 0, 0, 11]
    );
    assert_eq!(&out[48..56], &[0u8, 0, 0, 0, 0, 0, 0, 13]);
    assert_eq!(
        &out[56..72],
        &[0u8, 0, 0, 0, 0, 0, 0, 0, 0, 0, 0, 0, 0, 0, 0, 17]
    );
    // The 4-byte big-endian coefficient count.
    assert_eq!(&out[72..76], &[0u8, 0, 0, 2]);
    assert_eq!(&out[76..84], &[0u8, 0, 0, 0, 0, 0, 0, 19]);
    assert_eq!(&out[84..92], &[0u8, 0, 0, 0, 0, 0, 0, 23]);
}

#[test]
fn vk_round_trips() {
    let vk = sample_vk();
    let mut out: Vec<u8> = Vec::new();
    vk.write(&mut out).unwrap();
    let back = VerifyingKey::<DummyEngine>::read(&out).unwrap();
    assert!(back == vk);
}

#[test]
fn vk_round_trips_with_empty_coefficients() {
    let mut vk = sample_vk();
    vk.ic = vec![];
    let mut out: Vec<u8> = Vec::new();
    vk.write(&mut out).unwrap();
    let back = VerifyingKey::<DummyEngine>::read(&out).unwrap();
    assert!(back == vk);
    assert!(back.ic.is_empty());
}

#[test]
fn vk_write_rejects_identity_points() {
    let mut out: Vec<u8> = Vec::new();
    let mut vk = sample_vk();
    vk.gamma_g2 = fr(0);
    assert!(matches!(
        vk.write(&mut out),
        Err(SynthesisError::UnexpectedIdentity)
    ));
    assert!(out.is_empty());
    let mut vk = sample_vk();
    vk.ic[1] = fr(0);
    assert!(matches!(
        vk.write(&mut out),
        Err(SynthesisError::UnexpectedIdentity)
    ));
    assert!(out.is_empty());
}

#[test]
fn vk_read_rejects_identity_coefficients() {
    let vk = sample_vk();
    let mut out: Vec<u8> = Vec::new();
    vk.write(&mut out).unwrap();
    // Zero out the last coefficient's block: a valid identity encoding.
    let n = out.len();
    for i in (n - 8)..n {
        out[i] = 0;
    }
    assert!(matches!(
        VerifyingKey::<DummyEngine>::read(&out),
        Err(SynthesisError::UnexpectedIdentity)
    ));
}

#[test]
fn vk_read_rejects_every_truncation() {
    let vk = sample_vk();
    let mut out: Vec<u8> = Vec::new();
    vk.write(&mut out).unwrap();
    for len in 0..out.len() {
        let r = VerifyingKey::<DummyEngine>::read(&out[..len]);
        assert!(matches!(r, Err(SynthesisError::IoError)));
    }
}

#[test]
fn vk_read_bounds_the_declared_count() {
    let vk = sample_vk();
    let mut out: Vec<u8> = Vec::new();
    vk.write(&mut out).unwrap();
    // Declare one coefficient more than the bound allows.
    let big = MAX_IC_LEN + 1;
    out[72] = (big >> 24) as u8;
    out[73] = (big >> 16) as u8;
    out[74] = (big >> 8) as u8;
    out[75] = big as u8;
    assert!(matches!(
        VerifyingKey::<DummyEngine>::read(&out),
        Err(SynthesisError::IoError)
    ));
}

#[test]
fn error_descriptions_name_the_category() {
    assert_eq!(
        SynthesisError::MalformedVerifyingKey.description_str(),
        "malformed verifying key"
    );
    assert_eq!(
        SynthesisError::UnexpectedIdentity.description_str(),
        "encountered an identity element in the CRS"
    );
    assert_eq!(
        SynthesisError::IoError.description_str(),
        "encountered an I/O error"
    );
}
