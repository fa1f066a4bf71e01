//! The commitment key: an ordered sequence of independent group generators,
//! with the Pedersen commitment and the key manipulations the argument folds
//! keys with.
use vstd::prelude::*;

use curve25519_dalek::ristretto::RistrettoPoint;
use curve25519_dalek::scalar::Scalar;
use merlin::Transcript;

use crate::errors::IpaError;
use crate::labels::lab_gen;
use crate::labels::label_gen;
use crate::point::cc_vals;
use crate::point::msm;
use crate::point::msm_of;
use crate::point::point_add;
use crate::point::point_add_of;
use crate::point::point_decompress;
use crate::point::point_from_uniform;
use crate::point::point_from_uniform_of;
use crate::point::point_mul;
use crate::point::point_mul_of;
use crate::point::point_val;
use crate::point::point_vals;
use crate::point::CompressedCommitment;
use crate::scalar::scalar_val;
use crate::scalar::scalar_vals;
use crate::transcript::ts_absorb;
use crate::transcript::ts_absorb_of;
use crate::transcript::ts_challenge64;
use crate::transcript::ts_challenge_of;
use crate::transcript::ts_new;
use crate::transcript::ts_new_of;
use crate::transcript::ts_view;
use crate::util::vec_concat;
use crate::util::vec_range;

verus! {

/// An ordered sequence of group generators.
#[derive(Clone)]
pub struct CommitmentKey {
    pub gens: Vec<RistrettoPoint>,
}

/// The generator encodings, and final sponge state, that squeezing `k`
/// generators out of a sponge in state `st` yields.
pub open spec fn setup_gens(st: Seq<u8>, k: nat) -> (Seq<Seq<u8>>, Seq<u8>)
    decreases k,
{
    if k == 0 {
        (Seq::empty(), st)
    } else {
        let prev = setup_gens(st, (k - 1) as nat);
        let c = ts_challenge_of(ts_absorb_of(prev.1, lab_gen()));
        (prev.0.push(point_from_uniform_of(c.1)), c.0)
    }
}

impl CommitmentKey {
    /// The canonical encodings of the generators.
    pub open spec fn vals(&self) -> Seq<Seq<u8>> {
        point_vals(self.gens@)
    }

    pub fn len(&self) -> (r: usize)
        ensures
            r == self.gens@.len(),
    {
        self.gens.len()
    }

    /// Derive `n` generators deterministically from a label, by squeezing a
    /// sponge seeded with it.
    pub fn setup(label: &Vec<u8>, n: usize) -> (r: CommitmentKey)
        requires
            label@.len() < 0x1_0000_0000,
        ensures
            r.gens@.len() == n,
            r.vals() == setup_gens(ts_new_of(label@), n as nat).0,
    {
        let mut t: Transcript = ts_new(label);
        let lab = label_gen();
        let mut gens: Vec<RistrettoPoint> = Vec::new();
        let ghost st0 = ts_view(t);
        let mut i: usize = 0;
        while i < n
            invariant
                i <= n,
                gens@.len() == i,
                point_vals(gens@) == setup_gens(st0, i as nat).0,
                ts_view(t) == setup_gens(st0, i as nat).1,
                lab@ == lab_gen(),
            decreases n - i,
        {
            ts_absorb(&mut t, &lab);
            let bytes = ts_challenge64(&mut t);
            let g = point_from_uniform(&bytes);
            gens.push(g);
            proof {
                assert(point_vals(gens@) =~= setup_gens(st0, (i + 1) as nat).0);
            }
            i = i + 1;
        }
        CommitmentKey { gens }
    }

    /// A copy of the key with the same generators.
    pub fn duplicate(&self) -> (r: CommitmentKey)
        ensures
            r.gens@ == self.gens@,
    {
        let r = CommitmentKey { gens: vec_range(&self.gens, 0, self.gens.len()) };
        proof {
            assert(r.gens@ =~= self.gens@);
        }
        r
    }

    /// Split the key at `k` into its first `k` and remaining generators.
    pub fn split_at(&self, k: usize) -> (r: (CommitmentKey, CommitmentKey))
        requires
            k <= self.gens@.len(),
        ensures
            r.0.vals() == self.vals().subrange(0, k as int),
            r.1.vals() == self.vals().subrange(k as int, self.vals().len() as int),
            r.0.gens@.len() == k,
            r.1.gens@.len() == self.gens@.len() - k,
    {
        let left = CommitmentKey { gens: vec_range(&self.gens, 0, k) };
        let right = CommitmentKey { gens: vec_range(&self.gens, k, self.gens.len()) };
        proof {
            assert(left.vals() =~= self.vals().subrange(0, k as int));
            assert(right.vals() =~= self.vals().subrange(k as int, self.vals().len() as int));
        }
        (left, right)
    }

    /// The concatenation of two keys.
    pub fn combine(&self, other: &CommitmentKey) -> (r: CommitmentKey)
        ensures
            r.vals() == self.vals() + other.vals(),
            r.gens@.len() == self.gens@.len() + other.gens@.len(),
    {
        let r = CommitmentKey { gens: vec_concat(&self.gens, &other.gens) };
        proof {
            assert(r.vals() =~= self.vals() + other.vals());
        }
        r
    }

    /// Multiply every generator by `s`, in place.
    pub fn scale(&mut self, s: &Scalar)
        ensures
            final(self).vals() == Seq::new(
                old(self).vals().len(),
                |i: int| point_mul_of(old(self).vals()[i], scalar_val(*s)),
            ),
            final(self).gens@.len() == old(self).gens@.len(),
    {
        let n = self.gens.len();
        let mut scaled: Vec<RistrettoPoint> = Vec::new();
        let mut i: usize = 0;
        while i < n
            invariant
                i <= n,
                n == self.gens@.len(),
                scaled@.len() == i,
                forall|j: int| 0 <= j < i ==> point_val(#[trigger] scaled@[j])
                    == point_mul_of(point_val(self.gens@[j]), scalar_val(*s)),
            decreases n - i,
        {
            scaled.push(point_mul(&self.gens[i], s));
            i = i + 1;
        }
        self.gens = scaled;
        proof {
            assert(final(self).vals() =~= Seq::new(
                old(self).vals().len(),
                |i: int| point_mul_of(old(self).vals()[i], scalar_val(*s)),
            ));
        }
    }

    /// The key whose generators are `u * left[i] + v * right[i]`.
    pub fn fold(left: &CommitmentKey, right: &CommitmentKey, u: &Scalar, v: &Scalar) -> (r:
        CommitmentKey)
        requires
            left.gens@.len() == right.gens@.len(),
        ensures
            r.vals() == fold_vals(left.vals(), right.vals(), scalar_val(*u), scalar_val(*v)),
            r.gens@.len() == left.gens@.len(),
    {
        let n = left.gens.len();
        let mut gens: Vec<RistrettoPoint> = Vec::new();
        let mut i: usize = 0;
        while i < n
            invariant
                i <= n,
                n == left.gens@.len() == right.gens@.len(),
                gens@.len() == i,
                forall|j: int| 0 <= j < i ==> point_val(#[trigger] gens@[j]) == point_add_of(
                    point_mul_of(point_val(left.gens@[j]), scalar_val(*u)),
                    point_mul_of(point_val(right.gens@[j]), scalar_val(*v)),
                ),
            decreases n - i,
        {
            let g = point_add(&point_mul(&left.gens[i], u), &point_mul(&right.gens[i], v));
            gens.push(g);
            i = i + 1;
        }
        let r = CommitmentKey { gens };
        proof {
            assert(r.vals() =~= fold_vals(
                left.vals(),
                right.vals(),
                scalar_val(*u),
                scalar_val(*v),
            ));
        }
        r
    }

    /// The Pedersen commitment `sum_i coeffs[i] * gens[i]` to exactly as many
    /// coefficients as there are generators.
    pub fn commit(&self, coeffs: &Vec<Scalar>) -> (r: RistrettoPoint)
        requires
            coeffs@.len() == self.gens@.len(),
        ensures
            point_val(r) == msm_of(self.vals(), scalar_vals(coeffs@)),
    {
        msm(&self.gens, coeffs)
    }

    /// Treat a list of compressed commitments as a commitment key; fails with
    /// `InvalidPCS` when a byte string is not the encoding of a point.
    pub fn reinterpret_commitments_as_ck(cs: &Vec<CompressedCommitment>) -> (r: Result<
        CommitmentKey,
        IpaError,
    >)
        ensures
            r matches Ok(k) ==> k.gens@.len() == cs@.len() && k.vals() == cc_vals(cs@),
            r is Ok <==> decodable(cc_vals(cs@)),
            r is Err ==> r == Err::<CommitmentKey, IpaError>(IpaError::InvalidPCS),
    {
        let n = cs.len();
        let mut gens: Vec<RistrettoPoint> = Vec::new();
        let mut i: usize = 0;
        while i < n
            invariant
                i <= n,
                n == cs@.len(),
                gens@.len() == i,
                forall|j: int| 0 <= j < i ==> point_val(#[trigger] gens@[j]) == cs@[j].bytes@,
                forall|j: int| 0 <= j < i ==> is_point_encoding(#[trigger] cc_vals(cs@)[j]),
            decreases n - i,
        {
            match point_decompress(&cs[i].bytes) {
                Some(p) => {
                    proof {
                        assert(point_val(p) == cc_vals(cs@)[i as int]);
                        assert(is_point_encoding(cc_vals(cs@)[i as int]));
                    }
                    gens.push(p);
                },
                None => {
                    proof {
                        assert(cc_vals(cs@)[i as int] == cs@[i as int].bytes@);
                        assert(!is_point_encoding(cc_vals(cs@)[i as int]));
                        assert(!decodable(cc_vals(cs@)));
                    }
                    return Err(IpaError::InvalidPCS);
                },
            }
            i = i + 1;
        }
        let r = CommitmentKey { gens };
        proof {
            assert(r.vals() =~= cc_vals(cs@));
            assert forall|j: int| 0 <= j < cc_vals(cs@).len() implies is_point_encoding(
                #[trigger] cc_vals(cs@)[j],
            ) by {
                assert(cc_vals(cs@)[j] == cs@[j].bytes@);
                assert(point_val(r.gens@[j]) == cc_vals(cs@)[j]);
            }
            assert(decodable(cc_vals(cs@)));
        }
        Ok(r)
    }
}

/// The element-wise fold `u * left[i] + v * right[i]` of two generator lists.
pub open spec fn fold_vals(left: Seq<Seq<u8>>, right: Seq<Seq<u8>>, u: nat, v: nat) -> Seq<
    Seq<u8>,
> {
    Seq::new(left.len(), |i: int| point_add_of(point_mul_of(left[i], u), point_mul_of(right[i], v)))
}

/// Whether `b` is the canonical encoding of some point.
pub open spec fn is_point_encoding(b: Seq<u8>) -> bool {
    exists|p: RistrettoPoint| point_val(p) == b
}

/// Whether every byte string in `cs` is the canonical encoding of a point.
pub open spec fn decodable(cs: Seq<Seq<u8>>) -> bool {
    forall|j: int| 0 <= j < cs.len() ==> is_point_encoding(#[trigger] cs[j])
}

} // verus!
