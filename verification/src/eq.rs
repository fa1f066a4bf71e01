//! The equality polynomial: for a point `x` of `l` coordinates, the vector of
//! the `2^l` evaluations at `x` of the multilinear indicators of the boolean
//! points, so that `<f, eq(x)>` is the multilinear extension of `f` at `x`.
use vstd::prelude::*;

use curve25519_dalek::scalar::Scalar;

use crate::scalar::f_mul;
use crate::scalar::f_sub;
use crate::scalar::scalar_mul;
use crate::scalar::scalar_one;
use crate::scalar::scalar_sub;
use crate::scalar::scalar_val;
use crate::scalar::scalar_vals;
use crate::util::pow2s;

verus! {

/// One doubling step: entry `2i` carries `e[i] * (1 - r)` and entry `2i + 1`
/// carries `e[i] * r`.
pub open spec fn eq_double(e: Seq<nat>, r: nat) -> Seq<nat> {
    Seq::new(
        2 * e.len(),
        |i: int|
            if i % 2 == 1 {
                f_mul(e[i / 2], r)
            } else {
                f_mul(e[i / 2], f_sub(1, r))
            },
    )
}

/// The `2^|x|` evaluations of the equality polynomial at `x`: entry `i` is
/// the product over `j` of `x[j]` where bit `j` of `i` is set and `1 - x[j]`
/// where it is clear.
pub open spec fn eq_evals(x: Seq<nat>) -> Seq<nat>
    decreases x.len(),
{
    if x.len() == 0 {
        seq![1nat]
    } else {
        eq_double(eq_evals(x.skip(1)), x[0])
    }
}

/// Compute the equality polynomial's evaluations at `x`.
#[verifier::loop_isolation(false)]
pub fn evals_from_points(x: &Vec<Scalar>) -> (r: Vec<Scalar>)
    requires
        x@.len() < 32,
    ensures
        r@.len() == pow2s(x@.len()),
        scalar_vals(r@) == eq_evals(scalar_vals(x@)),
{
    let one = scalar_one();
    let mut evals: Vec<Scalar> = Vec::new();
    evals.push(one);
    let l = x.len();
    proof {
        assert(scalar_vals(x@).skip(l as int) =~= Seq::<nat>::empty());
        assert(scalar_vals(evals@) =~= eq_evals(scalar_vals(x@).skip(l as int)));
    }
    let mut j: usize = l;
    while j > 0
        invariant
            j <= l,
            evals@.len() == pow2s((l - j) as nat),
            scalar_vals(evals@) == eq_evals(scalar_vals(x@).skip(j as int)),
        decreases j,
    {
        j = j - 1;
        let xj = x[j];
        let one_minus = scalar_sub(&one, &xj);
        let m = evals.len();
        let mut next: Vec<Scalar> = Vec::new();
        let mut i: usize = 0;
        while i < m
            invariant
                i <= m == evals@.len(),
                next@.len() == 2 * i,
                scalar_val(one_minus) == f_sub(1, scalar_val(xj)),
                forall|jj: int| 0 <= jj < 2 * i ==> scalar_val(#[trigger] next@[jj]) == (if jj % 2
                    == 1 {
                    f_mul(scalar_val(evals@[jj / 2]), scalar_val(xj))
                } else {
                    f_mul(scalar_val(evals@[jj / 2]), f_sub(1, scalar_val(xj)))
                }),
            decreases m - i,
        {
            next.push(scalar_mul(&evals[i], &one_minus));
            next.push(scalar_mul(&evals[i], &xj));
            i = i + 1;
        }
        proof {
            assert(scalar_vals(next@) =~= eq_double(scalar_vals(evals@), scalar_val(xj)));
            let xs = scalar_vals(x@);
            assert(xs.skip(j as int)[0] == scalar_val(x@[j as int]));
            assert(xs.skip(j as int).skip(1) =~= xs.skip(j + 1));
            assert(eq_evals(xs.skip(j as int)) == eq_double(
                eq_evals(xs.skip(j + 1)),
                scalar_val(x@[j as int]),
            ));
        }
        evals = next;
    }
    proof {
        assert(scalar_vals(x@).skip(0) =~= scalar_vals(x@));
    }
    evals
}

} // verus!
