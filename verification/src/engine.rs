//! The evaluation engine: `setup`, `prove` and `verify` for claims that a
//! committed multilinear polynomial evaluates to a given value at a point.
//!
//! A polynomial over `l` variables is its vector of `2^l` evaluations on the
//! boolean cube; the engine reduces the claim `f(x) = y` to the inner-product
//! instance `(commit(f), eq(x), y)` and runs the folding argument on it.
use vstd::prelude::*;

use curve25519_dalek::ristretto::RistrettoPoint;
use curve25519_dalek::scalar::Scalar;
use merlin::Transcript;

use crate::eq::eq_evals;
use crate::eq::evals_from_points;
use crate::errors::IpaError;
use crate::ipa::prove_post;
use crate::ipa::verify_spec;
use crate::ipa::verify_ts;
use crate::ipa::InnerProductArgument;
use crate::ipa::InnerProductInstance;
use crate::ipa::InnerProductWitness;
use crate::keys::CommitmentKey;
use crate::point::cc_bounded;
use crate::point::cc_vals;
use crate::point::point_val;
use crate::scalar::scalar_val;
use crate::scalar::scalar_vals;
use crate::transcript::ts_view;
use crate::util::pow2_exec;
use crate::util::pow2s;

verus! {

/// The prover's key: the single generator the scalar claim is committed
/// under.
pub struct ProverKey {
    pub ck_s: CommitmentKey,
}

/// The verifier's key: the full commitment key and the single generator of
/// the scalar claim.
pub struct VerifierKey {
    pub ck_v: CommitmentKey,
    pub ck_s: CommitmentKey,
}

/// A polynomial evaluation engine built on the inner-product argument.
#[derive(Clone, Debug)]
pub struct EvaluationEngine {}

impl EvaluationEngine {
    /// Derive the single-generator key for the scalar claim and package the
    /// keys; the main commitment key is shared unchanged.
    pub fn setup(ck: &CommitmentKey) -> (r: (ProverKey, VerifierKey))
        ensures
            r.0.ck_s.gens@.len() == 1,
            r.1.ck_s.gens@ == r.0.ck_s.gens@,
            r.1.ck_v.gens@ == ck.gens@,
            r.0.ck_s.vals() == crate::keys::setup_gens(
                crate::transcript::ts_new_of(crate::labels::lab_ipa()),
                1,
            ).0,
    {
        let lab = crate::labels::label_ipa();
        let ck_c = CommitmentKey::setup(&lab, 1);
        let pk = ProverKey { ck_s: ck_c.duplicate() };
        let vk = VerifierKey { ck_v: ck.duplicate(), ck_s: ck_c };
        (pk, vk)
    }

    /// Prove that the multilinear polynomial with evaluation vector `poly`
    /// evaluates at `point` to `eval`, given its commitment `comm`.
    ///
    /// The proof is the folding argument on `(comm, eq(point), eval)`; its
    /// contract pins it to the folding recursion exactly as
    /// `InnerProductArgument::prove` does.
    pub fn prove(
        ck: &CommitmentKey,
        pk: &ProverKey,
        transcript: &mut Transcript,
        comm: &RistrettoPoint,
        poly: &Vec<Scalar>,
        point: &Vec<Scalar>,
        eval: &Scalar,
    ) -> (r: Result<InnerProductArgument, IpaError>)
        requires
            point@.len() < 32,
            ck.gens@.len() >= pow2s(point@.len()),
            pk.ck_s.gens@.len() == 1,
        ensures
            prove_post(
                scalar_vals(poly@),
                eq_evals(scalar_vals(point@)),
                ck.vals(),
                point_val(*comm),
                scalar_val(*eval),
                pk.ck_s.vals()[0],
                ts_view(*old(transcript)),
                ts_view(*final(transcript)),
                r,
            ),
    {
        let b = evals_from_points(point);
        let u = InnerProductInstance::new(comm, &b, eval);
        let w = InnerProductWitness::new(poly);
        InnerProductArgument::prove(ck, &pk.ck_s, &u, &w, transcript)
    }

    /// Verify a purported evaluation of a committed multilinear polynomial.
    ///
    /// The result equals `verify_spec` on `(comm, eq(point), eval)` and the
    /// proof, so the contract says exactly which inputs are accepted and
    /// which error every other input earns.
    pub fn verify(
        vk: &VerifierKey,
        transcript: &mut Transcript,
        comm: &RistrettoPoint,
        point: &Vec<Scalar>,
        eval: &Scalar,
        arg: &InnerProductArgument,
    ) -> (r: Result<(), IpaError>)
        requires
            point@.len() < 32,
            vk.ck_v.gens@.len() >= pow2s(point@.len()),
            vk.ck_s.gens@.len() == 1,
            cc_bounded(arg.L_vec@),
            cc_bounded(arg.R_vec@),
        ensures
            r == verify_spec(
                vk.ck_v.vals(),
                vk.ck_s.vals()[0],
                pow2s(point@.len()),
                point_val(*comm),
                eq_evals(scalar_vals(point@)),
                scalar_val(*eval),
                cc_vals(arg.L_vec@),
                cc_vals(arg.R_vec@),
                scalar_val(arg.a_hat),
                ts_view(*old(transcript)),
            ),
            ts_view(*final(transcript)) == verify_ts(
                pow2s(point@.len()),
                eq_evals(scalar_vals(point@)).len(),
                point_val(*comm),
                scalar_val(*eval),
                cc_vals(arg.L_vec@),
                cc_vals(arg.R_vec@),
                ts_view(*old(transcript)),
            ),
    {
        let b = evals_from_points(point);
        let u = InnerProductInstance::new(comm, &b, eval);
        let n = pow2_exec(point.len());
        let r = arg.verify(&vk.ck_v, &vk.ck_s, n, &u, transcript);
        proof {
            assert(u.b_vec@.len() == eq_evals(scalar_vals(point@)).len());
        }
        r
    }
}

/// Whether every encoding in `cs` is short enough for the sponge.
fn cc_all_short(cs: &Vec<crate::point::CompressedCommitment>) -> (r: bool)
    ensures
        r == cc_bounded(cs@),
{
    let n = cs.len();
    let mut i: usize = 0;
    while i < n
        invariant
            i <= n,
            n == cs@.len(),
            forall|j: int| 0 <= j < i ==> (#[trigger] cs@[j]).bytes@.len() < 0x1_0000_0000,
        decreases n - i,
    {
        if cs[i].bytes.len() as u64 >= 0x1_0000_0000u64 {
            return false;
        }
        i = i + 1;
    }
    true
}

/// The interface of a polynomial evaluation engine: a key pair from a shared
/// commitment key, a prover and a verifier. Preconditions that the inherent
/// functions of `EvaluationEngine` state in `requires` are checked at run
/// time here, failing with `InvalidInputLength` and leaving the transcript
/// untouched; on every other input the impl carries the inherent functions'
/// exact contracts.
pub trait EvaluationEngineTrait {
    type ProverKey;

    type VerifierKey;

    type EvaluationArgument;

    fn setup(ck: &CommitmentKey) -> (r: (Self::ProverKey, Self::VerifierKey));

    fn prove(
        ck: &CommitmentKey,
        pk: &Self::ProverKey,
        transcript: &mut Transcript,
        comm: &RistrettoPoint,
        poly: &Vec<Scalar>,
        point: &Vec<Scalar>,
        eval: &Scalar,
    ) -> (r: Result<Self::EvaluationArgument, IpaError>);

    fn verify(
        vk: &Self::VerifierKey,
        transcript: &mut Transcript,
        comm: &RistrettoPoint,
        point: &Vec<Scalar>,
        eval: &Scalar,
        arg: &Self::EvaluationArgument,
    ) -> (r: Result<(), IpaError>);
}

impl EvaluationEngineTrait for EvaluationEngine {
    type ProverKey = ProverKey;

    type VerifierKey = VerifierKey;

    type EvaluationArgument = InnerProductArgument;

    fn setup(ck: &CommitmentKey) -> (r: (ProverKey, VerifierKey))
        ensures
            r.0.ck_s.gens@.len() == 1,
            r.1.ck_s.gens@ == r.0.ck_s.gens@,
            r.1.ck_v.gens@ == ck.gens@,
            r.0.ck_s.vals() == crate::keys::setup_gens(
                crate::transcript::ts_new_of(crate::labels::lab_ipa()),
                1,
            ).0,
    {
        EvaluationEngine::setup(ck)
    }

    fn prove(
        ck: &CommitmentKey,
        pk: &ProverKey,
        transcript: &mut Transcript,
        comm: &RistrettoPoint,
        poly: &Vec<Scalar>,
        point: &Vec<Scalar>,
        eval: &Scalar,
    ) -> (r: Result<InnerProductArgument, IpaError>)
        ensures
            (point@.len() >= 32 || pk.ck_s.gens@.len() != 1 || ck.gens@.len() < pow2s(
                point@.len(),
            )) ==> r == Err::<InnerProductArgument, IpaError>(IpaError::InvalidInputLength)
                && ts_view(*final(transcript)) == ts_view(*old(transcript)),
            !(point@.len() >= 32 || pk.ck_s.gens@.len() != 1 || ck.gens@.len() < pow2s(
                point@.len(),
            )) ==> prove_post(
                scalar_vals(poly@),
                eq_evals(scalar_vals(point@)),
                ck.vals(),
                point_val(*comm),
                scalar_val(*eval),
                pk.ck_s.vals()[0],
                ts_view(*old(transcript)),
                ts_view(*final(transcript)),
                r,
            ),
    {
        if point.len() >= 32 || pk.ck_s.len() != 1 {
            return Err(IpaError::InvalidInputLength);
        }
        let n = pow2_exec(point.len());
        if ck.len() < n {
            return Err(IpaError::InvalidInputLength);
        }
        EvaluationEngine::prove(ck, pk, transcript, comm, poly, point, eval)
    }

    fn verify(
        vk: &VerifierKey,
        transcript: &mut Transcript,
        comm: &RistrettoPoint,
        point: &Vec<Scalar>,
        eval: &Scalar,
        arg: &InnerProductArgument,
    ) -> (r: Result<(), IpaError>)
        ensures
            (point@.len() >= 32 || vk.ck_s.gens@.len() != 1 || vk.ck_v.gens@.len() < pow2s(
                point@.len(),
            ) || !cc_bounded(arg.L_vec@) || !cc_bounded(arg.R_vec@)) ==> r == Err::<(), IpaError>(
                IpaError::InvalidInputLength,
            ) && ts_view(*final(transcript)) == ts_view(*old(transcript)),
            !(point@.len() >= 32 || vk.ck_s.gens@.len() != 1 || vk.ck_v.gens@.len() < pow2s(
                point@.len(),
            ) || !cc_bounded(arg.L_vec@) || !cc_bounded(arg.R_vec@)) ==> r == verify_spec(
                vk.ck_v.vals(),
                vk.ck_s.vals()[0],
                pow2s(point@.len()),
                point_val(*comm),
                eq_evals(scalar_vals(point@)),
                scalar_val(*eval),
                cc_vals(arg.L_vec@),
                cc_vals(arg.R_vec@),
                scalar_val(arg.a_hat),
                ts_view(*old(transcript)),
            ) && ts_view(*final(transcript)) == verify_ts(
                pow2s(point@.len()),
                eq_evals(scalar_vals(point@)).len(),
                point_val(*comm),
                scalar_val(*eval),
                cc_vals(arg.L_vec@),
                cc_vals(arg.R_vec@),
                ts_view(*old(transcript)),
            ),
    {
        if point.len() >= 32 || vk.ck_s.len() != 1 {
            return Err(IpaError::InvalidInputLength);
        }
        let n = pow2_exec(point.len());
        if vk.ck_v.len() < n {
            return Err(IpaError::InvalidInputLength);
        }
        if !cc_all_short(&arg.L_vec) || !cc_all_short(&arg.R_vec) {
            return Err(IpaError::InvalidInputLength);
        }
        EvaluationEngine::verify(vk, transcript, comm, point, eval, arg)
    }
}

} // verus!
