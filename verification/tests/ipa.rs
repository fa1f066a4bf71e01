use curve25519_dalek::ristretto::RistrettoPoint;
use curve25519_dalek::scalar::Scalar;
use merlin::Transcript;

use ipa_pc::engine::EvaluationEngine;
use ipa_pc::eq::evals_from_points;
use ipa_pc::errors::IpaError;
use ipa_pc::ipa::inner_product;
use ipa_pc::ipa::InnerProductArgument;
use ipa_pc::ipa::InnerProductInstance;
use ipa_pc::ipa::InnerProductWitness;
use ipa_pc::keys::CommitmentKey;
use ipa_pc::point::CompressedCommitment;

fn sample_scalars(n: usize, seed: u64) -> Vec<Scalar> {
    let mut v = Vec::new();
    let mut x: u64 = seed;
    for _ in 0..n {
        x = x.wrapping_mul(6364136223846793005).wrapping_add(1442695040888963407);
        v.push(Scalar::from(x));
    }
    v
}

struct Setup {
    ck: CommitmentKey,
    pk: ipa_pc::engine::ProverKey,
    vk: ipa_pc::engine::VerifierKey,
    poly: Vec<Scalar>,
    point: Vec<Scalar>,
    eval: Scalar,
    comm: RistrettoPoint,
}

fn make_setup(num_vars: usize, seed: u64) -> Setup {
    let n = 1usize << num_vars;
    let ck = CommitmentKey::setup(&b"test-ck".to_vec(), n);
    let (pk, vk) = EvaluationEngine::setup(&ck);
    let poly = sample_scalars(n, seed);
    let point = sample_scalars(num_vars, seed.wrapping_add(17));
    let b = evals_from_points(&point);
    let eval = inner_product(&poly, &b);
    let comm = ck.commit(&poly);
    Setup { ck, pk, vk, poly, point, eval, comm }
}

fn prove_verify_from_num_vars(num_vars: usize) {
    let s = make_setup(num_vars, 42 + num_vars as u64);
    let mut pt = Transcript::new(b"test");
    let proof =
        EvaluationEngine::prove(&s.ck, &s.pk, &mut pt, &s.comm, &s.poly, &s.point, &s.eval)
            .unwrap();
    let mut vt = Transcript::new(b"test");
    let res = EvaluationEngine::verify(&s.vk, &mut vt, &s.comm, &s.point, &s.eval, &proof);
    assert_eq!(res, Ok(()));
}

#[test]
fn test_multiple_polynomial_size() {
    for num_vars in [4, 5, 6] {
        prove_verify_from_num_vars(num_vars);
    }
}

#[test]
fn test_proof_size() {
    let s = make_setup(4, 7);
    let mut pt = Transcript::new(b"test");
    let proof =
        EvaluationEngine::prove(&s.ck, &s.pk, &mut pt, &s.comm, &s.poly, &s.point, &s.eval)
            .unwrap();
    assert_eq!(proof.L_vec.len(), 4);
    assert_eq!(proof.R_vec.len(), 4);
    for c in proof.L_vec.iter().chain(proof.R_vec.iter()) {
        assert_eq!(c.bytes.len(), 32);
    }
}

#[test]
fn test_transcript_determinism() {
    let s = make_setup(5, 99);
    let mut t1 = Transcript::new(b"same-seed");
    let p1 = EvaluationEngine::prove(&s.ck, &s.pk, &mut t1, &s.comm, &s.poly, &s.point, &s.eval)
        .unwrap();
    let mut t2 = Transcript::new(b"same-seed");
    let p2 = EvaluationEngine::prove(&s.ck, &s.pk, &mut t2, &s.comm, &s.poly, &s.point, &s.eval)
        .unwrap();
    assert_eq!(p1.L_vec, p2.L_vec);
    assert_eq!(p1.R_vec, p2.R_vec);
    assert_eq!(p1.a_hat, p2.a_hat);
}

#[test]
fn test_wrong_evaluation_rejected() {
    for num_vars in [4, 5, 6] {
        let s = make_setup(num_vars, 3 + num_vars as u64);
        let mut pt = Transcript::new(b"test");
        let proof =
            EvaluationEngine::prove(&s.ck, &s.pk, &mut pt, &s.comm, &s.poly, &s.point, &s.eval)
                .unwrap();
        let bad_eval = s.eval + Scalar::ONE;
        let mut vt = Transcript::new(b"test");
        let res = EvaluationEngine::verify(&s.vk, &mut vt, &s.comm, &s.point, &bad_eval, &proof);
        assert_eq!(res, Err(IpaError::InvalidPCS));
    }
}

#[test]
fn test_wrong_commitment_rejected() {
    let s = make_setup(4, 11);
    let mut pt = Transcript::new(b"test");
    let proof =
        EvaluationEngine::prove(&s.ck, &s.pk, &mut pt, &s.comm, &s.poly, &s.point, &s.eval)
            .unwrap();
    let other_poly = sample_scalars(s.poly.len(), 1234);
    let bad_comm = s.ck.commit(&other_poly);
    let mut vt = Transcript::new(b"test");
    let res = EvaluationEngine::verify(&s.vk, &mut vt, &bad_comm, &s.point, &s.eval, &proof);
    assert_eq!(res, Err(IpaError::InvalidPCS));
}

#[test]
fn test_truncated_proof_rejected() {
    for num_vars in [4, 5, 6] {
        let s = make_setup(num_vars, 23 + num_vars as u64);
        let mut pt = Transcript::new(b"test");
        let mut proof =
            EvaluationEngine::prove(&s.ck, &s.pk, &mut pt, &s.comm, &s.poly, &s.point, &s.eval)
                .unwrap();
        proof.L_vec.pop();
        proof.R_vec.pop();
        let mut vt = Transcript::new(b"test");
        let res = EvaluationEngine::verify(&s.vk, &mut vt, &s.comm, &s.point, &s.eval, &proof);
        assert_eq!(res, Err(IpaError::InvalidInputLength));
    }
}

#[test]
fn test_swapped_cross_terms_rejected() {
    for num_vars in [4, 5, 6] {
        let s = make_setup(num_vars, 31 + num_vars as u64);
        let mut pt = Transcript::new(b"test");
        let mut proof =
            EvaluationEngine::prove(&s.ck, &s.pk, &mut pt, &s.comm, &s.poly, &s.point, &s.eval)
                .unwrap();
        let l0 = proof.L_vec[0].clone();
        let r0 = proof.R_vec[0].clone();
        proof.L_vec[0] = r0;
        proof.R_vec[0] = l0;
        let mut vt = Transcript::new(b"test");
        let res = EvaluationEngine::verify(&s.vk, &mut vt, &s.comm, &s.point, &s.eval, &proof);
        assert_eq!(res, Err(IpaError::InvalidPCS));
    }
}

#[test]
fn test_unequal_cross_term_lists_rejected() {
    let s = make_setup(4, 57);
    let mut pt = Transcript::new(b"test");
    let mut proof =
        EvaluationEngine::prove(&s.ck, &s.pk, &mut pt, &s.comm, &s.poly, &s.point, &s.eval)
            .unwrap();
    proof.R_vec.pop();
    let mut vt = Transcript::new(b"test");
    let res = EvaluationEngine::verify(&s.vk, &mut vt, &s.comm, &s.point, &s.eval, &proof);
    assert_eq!(res, Err(IpaError::InvalidInputLength));
}

#[test]
fn test_cap_on_rounds_rejected() {
    // a proof claiming 32 rounds is rejected before its contents are decoded
    let dummy = || CompressedCommitment { bytes: vec![0u8; 32] };
    let proof = InnerProductArgument {
        L_vec: (0..32).map(|_| dummy()).collect(),
        R_vec: (0..32).map(|_| dummy()).collect(),
        a_hat: Scalar::ONE,
    };
    let ck = CommitmentKey::setup(&b"cap".to_vec(), 1);
    let ck_c = CommitmentKey::setup(&b"cap-c".to_vec(), 1);
    let b = vec![Scalar::ONE];
    let u = InnerProductInstance::new(&ck.gens[0], &b, &Scalar::ONE);
    let mut vt = Transcript::new(b"test");
    let res = proof.verify(&ck, &ck_c, 1, &u, &mut vt);
    assert_eq!(res, Err(IpaError::InvalidInputLength));
}

#[test]
fn test_prove_length_mismatch_rejected() {
    let s = make_setup(4, 61);
    let short_poly = sample_scalars(8, 5);
    let mut pt = Transcript::new(b"test");
    let res =
        EvaluationEngine::prove(&s.ck, &s.pk, &mut pt, &s.comm, &short_poly, &s.point, &s.eval);
    assert_eq!(res.err(), Some(IpaError::InvalidInputLength));
}

#[test]
fn test_prove_non_power_of_two_rejected() {
    let ck = CommitmentKey::setup(&b"npt".to_vec(), 6);
    let ck_c = CommitmentKey::setup(&b"npt-c".to_vec(), 1);
    let a = sample_scalars(6, 2);
    let b = sample_scalars(6, 3);
    let c = inner_product(&a, &b);
    let comm = ck.commit(&a);
    let u = InnerProductInstance::new(&comm, &b, &c);
    let w = InnerProductWitness::new(&a);
    let mut t = Transcript::new(b"test");
    let res = InnerProductArgument::prove(&ck, &ck_c, &u, &w, &mut t);
    assert_eq!(res.err(), Some(IpaError::InvalidInputLength));
}

#[test]
fn test_inner_product_value() {
    let a = vec![Scalar::from(1u64), Scalar::from(2u64), Scalar::from(3u64)];
    let b = vec![Scalar::from(4u64), Scalar::from(5u64), Scalar::from(6u64)];
    assert_eq!(inner_product(&a, &b), Scalar::from(32u64));
}

#[test]
fn test_eq_evals_values() {
    let x0 = Scalar::from(2u64);
    let x1 = Scalar::from(3u64);
    let e = evals_from_points(&vec![x0, x1]);
    let one = Scalar::ONE;
    assert_eq!(e.len(), 4);
    assert_eq!(e[0], (one - x0) * (one - x1));
    assert_eq!(e[1], x0 * (one - x1));
    assert_eq!(e[2], (one - x0) * x1);
    assert_eq!(e[3], x0 * x1);
    // <f, eq(x)> is the multilinear extension of f at x
    let f = sample_scalars(4, 77);
    let expect = f[0] * e[0] + f[1] * e[1] + f[2] * e[2] + f[3] * e[3];
    assert_eq!(inner_product(&f, &e), expect);
}

#[test]
fn test_setup_deterministic() {
    let k1 = CommitmentKey::setup(&b"det".to_vec(), 4);
    let k2 = CommitmentKey::setup(&b"det".to_vec(), 4);
    assert_eq!(k1.gens, k2.gens);
    let k3 = CommitmentKey::setup(&b"other".to_vec(), 4);
    assert_ne!(k1.gens, k3.gens);
}

#[test]
fn test_commit_matches_group_sum() {
    let ck = CommitmentKey::setup(&b"sum".to_vec(), 2);
    let two = Scalar::from(2u64);
    let three = Scalar::from(3u64);
    let c = ck.commit(&vec![two, three]);
    let expect = ck.gens[0] * two + ck.gens[1] * three;
    assert_eq!(c, expect);
}

#[test]
fn test_reinterpret_commitments_roundtrip() {
    let ck = CommitmentKey::setup(&b"rt".to_vec(), 3);
    let cs: Vec<CompressedCommitment> = ck
        .gens
        .iter()
        .map(|g| CompressedCommitment { bytes: g.compress().to_bytes().to_vec() })
        .collect();
    let back = CommitmentKey::reinterpret_commitments_as_ck(&cs).unwrap();
    assert_eq!(back.gens, ck.gens);
    // a byte string that encodes no point is rejected
    let bad = vec![CompressedCommitment { bytes: vec![0xffu8; 32] }];
    assert_eq!(CommitmentKey::reinterpret_commitments_as_ck(&bad).err(), Some(IpaError::InvalidPCS));
}

#[test]
fn test_instance_transcript_bytes() {
    let ck = CommitmentKey::setup(&b"enc".to_vec(), 1);
    let c = Scalar::from(5u64);
    let u = InnerProductInstance::new(&ck.gens[0], &vec![Scalar::ONE], &c);
    let bytes = u.to_transcript_bytes();
    let mut expect = ck.gens[0].compress().to_bytes().to_vec();
    expect.extend_from_slice(&c.to_bytes());
    assert_eq!(bytes, expect);
}
