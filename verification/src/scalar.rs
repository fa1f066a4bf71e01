//! Scalars of the prime-order Ristretto group, with their arithmetic.
//!
//! A scalar is an integer modulo the group order; `scalar_val` names the
//! canonical value of one. Arithmetic is delegated to `curve25519_dalek` and
//! stated exactly, modulo `group_order()`.
use vstd::prelude::*;

use curve25519_dalek::scalar::Scalar;

verus! {

/// The order of the Ristretto group: 2^252 + 27742317777372353535851937790883648493.
pub open spec fn group_order() -> nat {
    0x1000000000000000000000000000000014def9dea2f79cd65812631a5cf5d3ednat
}

/// The canonical integer value of a scalar; always below `group_order()`.
pub uninterp spec fn scalar_val(s: Scalar) -> nat;

pub open spec fn f_add(a: nat, b: nat) -> nat {
    (a + b) % group_order()
}

pub open spec fn f_sub(a: nat, b: nat) -> nat {
    ((a % group_order() + group_order() - b % group_order()) as nat) % group_order()
}

pub open spec fn f_mul(a: nat, b: nat) -> nat {
    (a * b) % group_order()
}

/// The multiplicative inverse of `x` modulo the (prime) group order.
pub open spec fn f_inv(x: nat) -> nat {
    choose|v: nat| v < group_order() && f_mul(x, v) == 1
}

/// The integer a little-endian byte string stands for.
pub open spec fn bytes_le_to_nat(s: Seq<u8>) -> nat
    decreases s.len(),
{
    if s.len() == 0 {
        0
    } else {
        (s[0] + 256 * bytes_le_to_nat(s.skip(1))) as nat
    }
}

/// The `len`-byte little-endian encoding of `x`.
pub open spec fn nat_to_le_bytes(x: nat, len: nat) -> Seq<u8>
    decreases len,
{
    if len == 0 {
        Seq::empty()
    } else {
        seq![(x % 256) as u8] + nat_to_le_bytes(x / 256, (len - 1) as nat)
    }
}

/// The scalar obtained by reducing a 64-byte little-endian integer.
pub open spec fn f_from_wide(s: Seq<u8>) -> nat {
    bytes_le_to_nat(s) % group_order()
}

/// The canonical values of a sequence of scalars.
pub open spec fn scalar_vals(s: Seq<Scalar>) -> Seq<nat> {
    s.map_values(|x: Scalar| scalar_val(x))
}

#[verifier::external_type_specification]
#[verifier::external_body]
pub struct ExScalar(Scalar);

/// Relies on the derived `Clone` of `Scalar`, a `Copy` type: the clone is the
/// value itself.
pub assume_specification[ <Scalar as Clone>::clone ](s: &Scalar) -> (r: Scalar)
    ensures
        r == *s,
;

/// Relies on `curve25519_dalek::scalar::Scalar::ZERO`: the zero scalar.
#[verifier::external_body]
pub fn scalar_zero() -> (r: Scalar)
    ensures
        scalar_val(r) == 0,
{
    Scalar::ZERO
}

/// Relies on `curve25519_dalek::scalar::Scalar::ONE`: the scalar one.
#[verifier::external_body]
pub fn scalar_one() -> (r: Scalar)
    ensures
        scalar_val(r) == 1,
{
    Scalar::ONE
}

/// Relies on `curve25519_dalek` scalar addition: addition modulo the group order.
#[verifier::external_body]
pub fn scalar_add(a: &Scalar, b: &Scalar) -> (r: Scalar)
    ensures
        scalar_val(r) == f_add(scalar_val(*a), scalar_val(*b)),
        scalar_val(r) < group_order(),
{
    a + b
}

/// Relies on `curve25519_dalek` scalar subtraction: subtraction modulo the group order.
#[verifier::external_body]
pub fn scalar_sub(a: &Scalar, b: &Scalar) -> (r: Scalar)
    ensures
        scalar_val(r) == f_sub(scalar_val(*a), scalar_val(*b)),
        scalar_val(r) < group_order(),
{
    a - b
}

/// Relies on `curve25519_dalek` scalar multiplication: multiplication modulo
/// the group order.
#[verifier::external_body]
pub fn scalar_mul(a: &Scalar, b: &Scalar) -> (r: Scalar)
    ensures
        scalar_val(r) == f_mul(scalar_val(*a), scalar_val(*b)),
        scalar_val(r) < group_order(),
{
    a * b
}

/// Relies on `Scalar::invert`: the multiplicative inverse of a nonzero scalar.
#[verifier::external_body]
pub fn scalar_invert(s: &Scalar) -> (r: Scalar)
    requires
        scalar_val(*s) != 0,
    ensures
        scalar_val(r) == f_inv(scalar_val(*s)),
        f_mul(scalar_val(*s), scalar_val(r)) == 1,
        scalar_val(r) < group_order(),
{
    s.invert()
}

/// Relies on `Scalar::batch_invert`: every entry, which must be nonzero, is
/// replaced by its multiplicative inverse.
#[verifier::external_body]
pub fn scalar_batch_invert(v: &mut Vec<Scalar>)
    requires
        forall|i: int| 0 <= i < old(v)@.len() ==> scalar_val(#[trigger] old(v)@[i]) != 0,
    ensures
        final(v)@.len() == old(v)@.len(),
        forall|i: int| 0 <= i < old(v)@.len() ==> scalar_val(#[trigger] final(v)@[i])
            == f_inv(scalar_val(old(v)@[i])),
        forall|i: int| 0 <= i < old(v)@.len() ==> f_mul(
            scalar_val(old(v)@[i]),
            scalar_val(#[trigger] final(v)@[i]),
        ) == 1,
        forall|i: int| 0 <= i < old(v)@.len() ==> scalar_val(#[trigger] final(v)@[i])
            < group_order(),
{
    Scalar::batch_invert(v.as_mut_slice());
}

/// Relies on the `PartialEq` of `Scalar`: equality of canonical values.
#[verifier::external_body]
pub fn scalar_eq(a: &Scalar, b: &Scalar) -> (r: bool)
    ensures
        r == (scalar_val(*a) == scalar_val(*b)),
{
    a == b
}

/// Relies on `Scalar::to_bytes`: the canonical 32-byte little-endian encoding.
#[verifier::external_body]
pub fn scalar_to_bytes(s: &Scalar) -> (r: Vec<u8>)
    ensures
        r@ == nat_to_le_bytes(scalar_val(*s), 32),
        r@.len() == 32,
{
    s.to_bytes().to_vec()
}

/// Relies on `Scalar::from_bytes_mod_order_wide`: the 64-byte little-endian
/// integer reduced modulo the group order.
#[verifier::external_body]
pub fn scalar_from_wide(b: &Vec<u8>) -> (r: Scalar)
    requires
        b@.len() == 64,
    ensures
        scalar_val(r) == f_from_wide(b@),
        scalar_val(r) < group_order(),
{
    let mut buf = [0u8; 64];
    buf.copy_from_slice(b.as_slice());
    Scalar::from_bytes_mod_order_wide(&buf)
}

} // verus!
