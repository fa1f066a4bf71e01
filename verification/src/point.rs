//! Elements of the Ristretto group: commitments and commitment-key generators.
//!
//! A point is identified in specifications by `point_val`, its canonical
//! 32-byte encoding; group operations are delegated to `curve25519_dalek` and
//! their results are named.
use vstd::prelude::*;

use curve25519_dalek::ristretto::CompressedRistretto;
use curve25519_dalek::ristretto::RistrettoPoint;
use curve25519_dalek::scalar::Scalar;
use curve25519_dalek::traits::VartimeMultiscalarMul;

use crate::scalar::scalar_val;
use crate::scalar::scalar_vals;

verus! {

/// The canonical 32-byte Ristretto encoding of a point; equal encodings mean
/// equal points.
pub uninterp spec fn point_val(p: RistrettoPoint) -> Seq<u8>;

/// The sum of two points, by their encodings.
pub uninterp spec fn point_add_of(a: Seq<u8>, b: Seq<u8>) -> Seq<u8>;

/// The scalar multiple of a point, by encodings and canonical scalar value.
pub uninterp spec fn point_mul_of(p: Seq<u8>, s: nat) -> Seq<u8>;

/// The multiscalar multiplication `sum_i scalars[i] * points[i]`.
pub uninterp spec fn msm_of(points: Seq<Seq<u8>>, scalars: Seq<nat>) -> Seq<u8>;

/// The point the one-way map sends 64 uniform bytes to.
pub uninterp spec fn point_from_uniform_of(bytes: Seq<u8>) -> Seq<u8>;

/// The canonical encodings of a sequence of points.
pub open spec fn point_vals(s: Seq<RistrettoPoint>) -> Seq<Seq<u8>> {
    s.map_values(|p: RistrettoPoint| point_val(p))
}

#[verifier::external_type_specification]
#[verifier::external_body]
pub struct ExRistrettoPoint(RistrettoPoint);

/// Relies on the derived `Clone` of `RistrettoPoint`, a `Copy` type: the
/// clone is the value itself.
pub assume_specification[ <RistrettoPoint as Clone>::clone ](p: &RistrettoPoint) -> (r:
    RistrettoPoint)
    ensures
        r == *p,
;

/// Relies on `curve25519_dalek` point addition.
#[verifier::external_body]
pub fn point_add(a: &RistrettoPoint, b: &RistrettoPoint) -> (r: RistrettoPoint)
    ensures
        point_val(r) == point_add_of(point_val(*a), point_val(*b)),
{
    a + b
}

/// Relies on `curve25519_dalek` scalar-point multiplication.
#[verifier::external_body]
pub fn point_mul(p: &RistrettoPoint, s: &Scalar) -> (r: RistrettoPoint)
    ensures
        point_val(r) == point_mul_of(point_val(*p), scalar_val(*s)),
{
    p * s
}

/// Relies on `RistrettoPoint::vartime_multiscalar_mul`: the sum of the
/// pairwise scalar multiples of equally many points.
#[verifier::external_body]
pub fn msm(points: &Vec<RistrettoPoint>, scalars: &Vec<Scalar>) -> (r: RistrettoPoint)
    requires
        points@.len() == scalars@.len(),
    ensures
        point_val(r) == msm_of(point_vals(points@), scalar_vals(scalars@)),
{
    RistrettoPoint::vartime_multiscalar_mul(scalars.iter(), points.iter())
}

/// Relies on `RistrettoPoint::compress`: the canonical encoding of the point.
#[verifier::external_body]
pub fn point_compress(p: &RistrettoPoint) -> (r: Vec<u8>)
    ensures
        r@ == point_val(*p),
        r@.len() == 32,
{
    p.compress().to_bytes().to_vec()
}

/// Relies on `CompressedRistretto::decompress`: `Some` exactly on the
/// canonical encoding of a point, and then on that point.
#[verifier::external_body]
pub fn point_decompress(b: &Vec<u8>) -> (r: Option<RistrettoPoint>)
    ensures
        r matches Some(p) ==> point_val(p) == b@,
        r is None ==> forall|p: RistrettoPoint| point_val(p) != b@,
{
    CompressedRistretto::from_slice(b.as_slice()).ok().and_then(|c| c.decompress())
}

/// Relies on `RistrettoPoint::from_uniform_bytes`: the one-way map from 64
/// bytes to a point, a function of the bytes alone.
#[verifier::external_body]
pub fn point_from_uniform(b: &Vec<u8>) -> (r: RistrettoPoint)
    requires
        b@.len() == 64,
    ensures
        point_val(r) == point_from_uniform_of(b@),
{
    let mut buf = [0u8; 64];
    buf.copy_from_slice(b.as_slice());
    RistrettoPoint::from_uniform_bytes(&buf)
}

/// The canonical byte encoding of a commitment, as carried in a proof.
#[derive(Clone, Debug, PartialEq, Eq)]
pub struct CompressedCommitment {
    pub bytes: Vec<u8>,
}

/// The encodings a sequence of compressed commitments holds.
pub open spec fn cc_vals(s: Seq<CompressedCommitment>) -> Seq<Seq<u8>> {
    s.map_values(|c: CompressedCommitment| c.bytes@)
}

/// Whether every encoding in `s` is short enough to absorb: the sponge
/// length-prefixes a message with a `u32`.
pub open spec fn cc_bounded(s: Seq<CompressedCommitment>) -> bool {
    forall|i: int| 0 <= i < s.len() ==> (#[trigger] s[i]).bytes@.len() < 0x1_0000_0000
}

/// Compress a commitment to its canonical encoding.
pub fn compress_commitment(p: &RistrettoPoint) -> (r: CompressedCommitment)
    ensures
        r.bytes@ == point_val(*p),
        r.bytes@.len() == 32,
{
    CompressedCommitment { bytes: point_compress(p) }
}

/// Relies on the `PartialEq` of `RistrettoPoint`: group equality, which the
/// canonical encoding decides.
#[verifier::external_body]
pub fn point_eq(a: &RistrettoPoint, b: &RistrettoPoint) -> (r: bool)
    ensures
        r == (point_val(*a) == point_val(*b)),
{
    a == b
}

} // verus!
