//! The inner-product argument: a logarithmic-size proof that a committed
//! vector `a` satisfies `<a, b> = c` for a public vector `b`.
//!
//! The prover halves `(a, b, ck)` through `log2 n` folding rounds, committing
//! to the two cross terms of each round and folding with a transcript
//! challenge; the verifier replays the challenges, rebuilds the folded
//! generator through the tensor vector `s`, and checks one group equation.
//! Both directions carry contracts that pin their outputs down as functions
//! of the inputs and the initial transcript state.
use vstd::prelude::*;

use curve25519_dalek::ristretto::RistrettoPoint;
use curve25519_dalek::scalar::Scalar;
use merlin::Transcript;
use vstd::arithmetic::div_mod::lemma_mul_mod_noop_general;
use vstd::arithmetic::mul::lemma_mul_is_associative;
use vstd::arithmetic::mul::lemma_mul_is_commutative;

use crate::errors::IpaError;
use crate::keys::decodable;
use crate::keys::fold_vals;
use crate::keys::CommitmentKey;
use crate::labels::lab_challenge;
use crate::labels::lab_dom_sep;
use crate::labels::lab_instance;
use crate::labels::lab_left;
use crate::labels::lab_protocol;
use crate::labels::lab_right;
use crate::labels::label_challenge;
use crate::labels::label_dom_sep;
use crate::labels::label_instance;
use crate::labels::label_left;
use crate::labels::label_protocol;
use crate::labels::label_right;
use crate::point::cc_bounded;
use crate::point::cc_vals;
use crate::point::compress_commitment;
use crate::point::msm_of;
use crate::point::point_add;
use crate::point::point_add_of;
use crate::point::point_compress;
use crate::point::point_eq;
use crate::point::point_mul_of;
use crate::point::point_val;
use crate::point::CompressedCommitment;
use crate::scalar::f_add;
use crate::scalar::f_inv;
use crate::scalar::f_mul;
use crate::scalar::group_order;
use crate::scalar::nat_to_le_bytes;
use crate::scalar::scalar_add;
use crate::scalar::scalar_eq;
use crate::scalar::scalar_invert;
use crate::scalar::scalar_mul;
use crate::scalar::scalar_to_bytes;
use crate::scalar::scalar_val;
use crate::scalar::scalar_vals;
use crate::scalar::scalar_zero;
use crate::transcript::absorb_bytes;
use crate::transcript::absorb_st;
use crate::transcript::squeeze_scalar;
use crate::transcript::squeeze_st;
use crate::transcript::squeeze_val;
use crate::transcript::ts_view;
use crate::util::bit_set;
use crate::util::is_power_of_2;
use crate::util::lemma_log2_lt;
use crate::util::lemma_pow2s_log2_le;
use crate::util::lemma_pow2s_pos;
use crate::util::lemma_split_high_bit;
use crate::util::log2;
use crate::util::log2_exact;
use crate::util::pow2s;
use crate::util::vec_concat;
use crate::util::vec_range;

verus! {

/// An inner-product instance: a commitment to a secret vector `a`, a public
/// vector `b`, and the claim that `<a, b> = c`.
pub struct InnerProductInstance {
    pub comm_a_vec: RistrettoPoint,
    pub b_vec: Vec<Scalar>,
    pub c: Scalar,
}

/// The witness of an inner-product instance: the committed vector itself.
pub struct InnerProductWitness {
    pub a_vec: Vec<Scalar>,
}

/// An inner-product argument: one left and one right cross-term commitment
/// per folding round, and the single folded witness scalar.
#[derive(Clone, Debug)]
pub struct InnerProductArgument {
    pub L_vec: Vec<CompressedCommitment>,
    pub R_vec: Vec<CompressedCommitment>,
    pub a_hat: Scalar,
}

/// The inner product of two value vectors, modulo the group order, summed
/// left to right.
pub open spec fn ip_val(a: Seq<nat>, b: Seq<nat>) -> nat
    decreases a.len(),
{
    if a.len() == 0 {
        0
    } else {
        f_add(ip_val(a.drop_last(), b.drop_last()), f_mul(a.last(), b.last()))
    }
}

/// The bytes under which an instance enters the transcript: the commitment's
/// encoding, then the claim's; `b` is left out because the embedding derives
/// it from values already absorbed upstream.
pub open spec fn instance_bytes(comm: Seq<u8>, c: nat) -> Seq<u8> {
    comm + nat_to_le_bytes(c, 32)
}

impl InnerProductInstance {
    pub fn new(comm_a_vec: &RistrettoPoint, b_vec: &Vec<Scalar>, c: &Scalar) -> (r:
        InnerProductInstance)
        ensures
            r.comm_a_vec == *comm_a_vec,
            r.b_vec@ == b_vec@,
            r.c == *c,
    {
        let copy = vec_range(b_vec, 0, b_vec.len());
        proof {
            assert(copy@ =~= b_vec@);
        }
        InnerProductInstance { comm_a_vec: *comm_a_vec, b_vec: copy, c: *c }
    }

    /// The instance's canonical transcript encoding.
    pub fn to_transcript_bytes(&self) -> (r: Vec<u8>)
        ensures
            r@ == instance_bytes(point_val(self.comm_a_vec), scalar_val(self.c)),
            r@.len() == 64,
    {
        let comm = point_compress(&self.comm_a_vec);
        let c = scalar_to_bytes(&self.c);
        vec_concat(&comm, &c)
    }
}

impl InnerProductWitness {
    pub fn new(a_vec: &Vec<Scalar>) -> (r: InnerProductWitness)
        ensures
            r.a_vec@ == a_vec@,
    {
        let copy = vec_range(a_vec, 0, a_vec.len());
        proof {
            assert(copy@ =~= a_vec@);
        }
        InnerProductWitness { a_vec: copy }
    }
}

/// Compute `<a, b>` over equally long scalar vectors.
pub fn inner_product(a: &Vec<Scalar>, b: &Vec<Scalar>) -> (r: Scalar)
    requires
        a@.len() == b@.len(),
    ensures
        scalar_val(r) == ip_val(scalar_vals(a@), scalar_vals(b@)),
        scalar_val(r) < group_order(),
{
    let n = a.len();
    let mut acc = scalar_zero();
    let mut i: usize = 0;
    proof {
        assert(scalar_vals(a@).take(0) =~= Seq::<nat>::empty());
    }
    while i < n
        invariant
            i <= n,
            n == a@.len() == b@.len(),
            scalar_val(acc) == ip_val(scalar_vals(a@).take(i as int), scalar_vals(b@).take(i as int)),
            scalar_val(acc) < group_order() || scalar_val(acc) == 0,
        decreases n - i,
    {
        let term = scalar_mul(&a[i], &b[i]);
        let next = scalar_add(&acc, &term);
        proof {
            let av = scalar_vals(a@);
            let bv = scalar_vals(b@);
            assert(av.take(i + 1).drop_last() =~= av.take(i as int));
            assert(bv.take(i + 1).drop_last() =~= bv.take(i as int));
            assert(av.take(i + 1).last() == av[i as int]);
            assert(bv.take(i + 1).last() == bv[i as int]);
        }
        acc = next;
        i = i + 1;
    }
    proof {
        assert(scalar_vals(a@).take(n as int) =~= scalar_vals(a@));
        assert(scalar_vals(b@).take(n as int) =~= scalar_vals(b@));
        if n == 0 {
            assert(ip_val(scalar_vals(a@), scalar_vals(b@)) == 0);
        }
    }
    acc
}

/// The running state of the folding recursion: the current witness and public
/// vectors (by value), the current key (by encodings), the cross-term
/// commitments put out so far, and the transcript state.
pub struct RoundState {
    pub a: Seq<nat>,
    pub b: Seq<nat>,
    pub ck: Seq<Seq<u8>>,
    pub ls: Seq<Seq<u8>>,
    pub rs: Seq<Seq<u8>>,
    pub st: Seq<u8>,
}

/// The left cross-term commitment of the next round.
#[verifier::opaque]
pub open spec fn round_l(s: RoundState, ck_c: Seq<u8>) -> Seq<u8> {
    let half = s.a.len() as int / 2;
    let c_l = ip_val(s.a.take(half), s.b.skip(half));
    msm_of(s.ck.skip(half).push(ck_c), s.a.take(half).push(c_l))
}

/// The right cross-term commitment of the next round.
#[verifier::opaque]
pub open spec fn round_r(s: RoundState, ck_c: Seq<u8>) -> Seq<u8> {
    let half = s.a.len() as int / 2;
    let c_r = ip_val(s.a.skip(half), s.b.take(half));
    msm_of(s.ck.take(half).push(ck_c), s.a.skip(half).push(c_r))
}

/// The transcript state after the next round's two absorptions.
#[verifier::opaque]
pub open spec fn round_st2(s: RoundState, ck_c: Seq<u8>) -> Seq<u8> {
    absorb_st(absorb_st(s.st, lab_left(), round_l(s, ck_c)), lab_right(), round_r(s, ck_c))
}

/// The next round's folding challenge.
#[verifier::opaque]
pub open spec fn round_ch(s: RoundState, ck_c: Seq<u8>) -> nat {
    squeeze_val(round_st2(s, ck_c), lab_challenge())
}

/// One folding round: emit the cross terms, squeeze the challenge `r`, fold
/// `a` with `(r, 1/r)`, `b` with `(1/r, r)` and the key with `(1/r, r)`.
#[verifier::opaque]
pub open spec fn round_step(s: RoundState, ck_c: Seq<u8>) -> RoundState {
    let half = s.a.len() as int / 2;
    let ch = round_ch(s, ck_c);
    let ch_inv = f_inv(ch);
    RoundState {
        a: Seq::new(half as nat, |i: int| f_add(f_mul(s.a[i], ch), f_mul(ch_inv, s.a[half + i]))),
        b: Seq::new(half as nat, |i: int| f_add(f_mul(s.b[i], ch_inv), f_mul(ch, s.b[half + i]))),
        ck: fold_vals(s.ck.take(half), s.ck.skip(half), ch_inv, ch),
        ls: s.ls.push(round_l(s, ck_c)),
        rs: s.rs.push(round_r(s, ck_c)),
        st: squeeze_st(round_st2(s, ck_c), lab_challenge()),
    }
}

/// The state after `k` folding rounds.
pub open spec fn rounds(s: RoundState, ck_c: Seq<u8>, k: nat) -> RoundState
    decreases k,
{
    if k == 0 {
        s
    } else {
        round_step(rounds(s, ck_c, (k - 1) as nat), ck_c)
    }
}

/// Whether the first `k` rounds all squeeze nonzero challenges.
pub open spec fn rounds_ok(s: RoundState, ck_c: Seq<u8>, k: nat) -> bool
    decreases k,
{
    if k == 0 {
        true
    } else {
        rounds_ok(s, ck_c, (k - 1) as nat) && round_ch(rounds(s, ck_c, (k - 1) as nat), ck_c) != 0
    }
}

/// The initial folding state and the scaled scalar-commitment generator: the
/// protocol tag and the instance are absorbed, the challenge `r0` is squeezed,
/// and `ck_c` is replaced by `r0 * ck_c`.
pub open spec fn prove_init(
    a: Seq<nat>,
    b: Seq<nat>,
    ck: Seq<Seq<u8>>,
    comm: Seq<u8>,
    c: nat,
    ck_c: Seq<u8>,
    ts0: Seq<u8>,
) -> (RoundState, Seq<u8>) {
    let st_pre = fs_pre(ts0, comm, c);
    let r0 = squeeze_val(st_pre, lab_challenge());
    let st1 = squeeze_st(st_pre, lab_challenge());
    (
        RoundState {
            a,
            b,
            ck: ck.take(b.len() as int),
            ls: Seq::empty(),
            rs: Seq::empty(),
            st: st1,
        },
        point_mul_of(ck_c, r0),
    )
}

/// The full postcondition of the prover: on ill-fitting lengths the call
/// fails with `InvalidInputLength` having absorbed only the domain tag; on
/// well-formed lengths the outcome and the final transcript state `ts1` are
/// pinned to the folding recursion — the proof's components equal the
/// recursion's when every challenge is nonzero, and a zero challenge at the
/// first bad round `j` fails with `TranscriptError` right after that round's
/// squeeze.
pub open spec fn prove_post(
    a: Seq<nat>,
    b: Seq<nat>,
    ck: Seq<Seq<u8>>,
    comm: Seq<u8>,
    c: nat,
    ckc: Seq<u8>,
    ts0: Seq<u8>,
    ts1: Seq<u8>,
    r: Result<InnerProductArgument, IpaError>,
) -> bool {
    let lens_ok = b.len() == a.len() && is_power_of_2(b.len());
    let pr = prove_init(a, b, ck, comm, c, ckc, ts0);
    let k = log2(b.len());
    let fin = rounds(pr.0, pr.1, k);
    &&& (lens_ok ==> {
        &&& (r is Ok <==> rounds_ok(pr.0, pr.1, k))
        &&& (r matches Ok(arg) ==> cc_vals(arg.L_vec@) == fin.ls && cc_vals(arg.R_vec@) == fin.rs
            && scalar_val(arg.a_hat) == fin.a[0] && arg.L_vec@.len() == k && arg.R_vec@.len() == k
            && ts1 == fin.st)
        &&& (!rounds_ok(pr.0, pr.1, k) ==> r == Err::<InnerProductArgument, IpaError>(
            IpaError::TranscriptError,
        ) && exists|j: nat|
            j < k && #[trigger] rounds_ok(pr.0, pr.1, j) && round_ch(rounds(pr.0, pr.1, j), pr.1)
                == 0 && ts1 == rounds(pr.0, pr.1, (j + 1) as nat).st)
    })
    &&& (!lens_ok ==> r == Err::<InnerProductArgument, IpaError>(IpaError::InvalidInputLength)
        && ts1 == absorb_st(ts0, lab_dom_sep(), lab_protocol()))
}

/// Once a round squeezes a zero challenge, every longer run is bad too.
pub proof fn lemma_rounds_ok_mono(s: RoundState, ck_c: Seq<u8>, j: nat, k: nat)
    requires
        j <= k,
        rounds_ok(s, ck_c, k),
    ensures
        rounds_ok(s, ck_c, j),
    decreases k,
{
    if j < k {
        lemma_rounds_ok_mono(s, ck_c, j, (k - 1) as nat);
    }
}



/// The transcript state after the protocol tag and the instance are absorbed.
pub open spec fn fs_pre(ts0: Seq<u8>, comm: Seq<u8>, c: nat) -> Seq<u8> {
    absorb_st(
        absorb_st(ts0, lab_dom_sep(), lab_protocol()),
        lab_instance(),
        instance_bytes(comm, c),
    )
}

/// The challenges the verifier replays from the proof's cross terms, and the
/// transcript state after them.
pub open spec fn ver_chs(st: Seq<u8>, ls: Seq<Seq<u8>>, rs: Seq<Seq<u8>>, k: nat) -> (
    Seq<nat>,
    Seq<u8>,
)
    decreases k,
{
    if k == 0 {
        (Seq::empty(), st)
    } else {
        let prev = ver_chs(st, ls, rs, (k - 1) as nat);
        let st2 = absorb_st(
            absorb_st(prev.1, lab_left(), ls[k - 1]),
            lab_right(),
            rs[k - 1],
        );
        (prev.0.push(squeeze_val(st2, lab_challenge())), squeeze_st(st2, lab_challenge()))
    }
}

/// Whether some value in `s` is zero.
pub open spec fn has_zero(s: Seq<nat>) -> bool {
    exists|j: int| 0 <= j < s.len() && s[j] == 0
}

/// The element-wise squares of `s`, modulo the group order.
pub open spec fn seq_sq(s: Seq<nat>) -> Seq<nat> {
    Seq::new(s.len(), |j: int| f_mul(s[j], s[j]))
}

/// The element-wise inverses of `s`.
pub open spec fn seq_inv(s: Seq<nat>) -> Seq<nat> {
    Seq::new(s.len(), |j: int| f_inv(s[j]))
}

/// The product of all values in `s`, modulo the group order, left to right.
pub open spec fn prod_val(s: Seq<nat>) -> nat
    decreases s.len(),
{
    if s.len() == 0 {
        1
    } else {
        f_mul(prod_val(s.drop_last()), s.last())
    }
}

/// The tensor vector of the verifier, of length `n`: `s[0]` is the product of
/// the inverted challenges, and `s[i]` for `i >= 1` multiplies `s[i - 2^k]`,
/// with `k` the highest set bit of `i`, by the square of the challenge that
/// bit belongs to.
pub open spec fn s_seq(r_sq: Seq<nat>, r_inv: Seq<nat>, n: nat) -> Seq<nat>
    decreases n,
{
    if n == 0 {
        Seq::empty()
    } else if n == 1 {
        seq![prod_val(r_inv)]
    } else {
        let prev = s_seq(r_sq, r_inv, (n - 1) as nat);
        let i = (n - 1) as nat;
        let k = log2(i);
        prev.push(f_mul(prev[i - pow2s(k)], r_sq[r_sq.len() - 1 - k]))
    }
}

/// Whether the lengths of an instance and a proof fit together: `|b| = n`,
/// `n = 2^|L|`, `|L| = |R|` and `|L| < 32`.
pub open spec fn verify_lengths_ok(n: nat, blen: nat, lslen: nat, rslen: nat) -> bool {
    blen == n && n == pow2s(lslen) && lslen == rslen && lslen < 32
}

/// What the verifier returns, as a function of the key, the instance, the
/// proof and the initial transcript state: length violations fail with
/// `InvalidInputLength`; a zero challenge fails with `TranscriptError`; cross
/// terms that do not decode, and a final equation that does not hold, fail
/// with `InvalidPCS`; everything else is accepted.
pub open spec fn verify_spec(
    ck: Seq<Seq<u8>>,
    ck_c: Seq<u8>,
    n: nat,
    comm: Seq<u8>,
    b: Seq<nat>,
    c: nat,
    ls: Seq<Seq<u8>>,
    rs: Seq<Seq<u8>>,
    a_hat: nat,
    ts0: Seq<u8>,
) -> Result<(), IpaError> {
    if !verify_lengths_ok(n, b.len(), ls.len(), rs.len()) {
        Err(IpaError::InvalidInputLength)
    } else {
        let st_pre = fs_pre(ts0, comm, c);
        let r0 = squeeze_val(st_pre, lab_challenge());
        let st1 = squeeze_st(st_pre, lab_challenge());
        let ckc_s = point_mul_of(ck_c, r0);
        let chs = ver_chs(st1, ls, rs, ls.len()).0;
        if has_zero(chs) {
            Err(IpaError::TranscriptError)
        } else {
            let r_sq = seq_sq(chs);
            let r_inv = seq_inv(chs);
            let r_inv_sq = seq_sq(r_inv);
            let s = s_seq(r_sq, r_inv, n);
            if !decodable(ls) || !decodable(rs) {
                Err(IpaError::InvalidPCS)
            } else {
                let p = point_add_of(comm, msm_of(seq![ckc_s], seq![c]));
                let ck_hat = msm_of(ck.take(n as int), s);
                let b_hat = ip_val(b, s);
                let p_hat = msm_of(ls + rs + seq![p], r_sq + r_inv_sq + seq![1nat]);
                let rhs = msm_of(seq![ck_hat, ckc_s], seq![a_hat, f_mul(a_hat, b_hat)]);
                if p_hat == rhs {
                    Ok(())
                } else {
                    Err(IpaError::InvalidPCS)
                }
            }
        }
    }
}

/// The transcript state the verifier leaves behind: on a length violation
/// only the domain tag has been absorbed; otherwise the instance was
/// absorbed, `r0` squeezed, and every cross term absorbed with its challenge
/// squeezed, whatever the outcome.
pub open spec fn verify_ts(
    n: nat,
    b_len: nat,
    comm: Seq<u8>,
    c: nat,
    ls: Seq<Seq<u8>>,
    rs: Seq<Seq<u8>>,
    ts0: Seq<u8>,
) -> Seq<u8> {
    if verify_lengths_ok(n, b_len, ls.len(), rs.len()) {
        ver_chs(squeeze_st(fs_pre(ts0, comm, c), lab_challenge()), ls, rs, ls.len()).1
    } else {
        absorb_st(ts0, lab_dom_sep(), lab_protocol())
    }
}

/// The product of all values in `v`, modulo the group order.
fn prod_all(v: &Vec<Scalar>) -> (r: Scalar)
    ensures
        scalar_val(r) == prod_val(scalar_vals(v@)),
{
    let n = v.len();
    let mut acc = crate::scalar::scalar_one();
    let mut i: usize = 0;
    proof {
        assert(scalar_vals(v@).take(0) =~= Seq::<nat>::empty());
    }
    while i < n
        invariant
            i <= n,
            n == v@.len(),
            scalar_val(acc) == prod_val(scalar_vals(v@).take(i as int)),
        decreases n - i,
    {
        let next = scalar_mul(&acc, &v[i]);
        proof {
            let vv = scalar_vals(v@);
            assert(vv.take(i + 1).drop_last() =~= vv.take(i as int));
            assert(vv.take(i + 1).last() == vv[i as int]);
        }
        acc = next;
        i = i + 1;
    }
    proof {
        assert(scalar_vals(v@).take(n as int) =~= scalar_vals(v@));
    }
    acc
}

/// Whether any entry of `v` is zero.
fn any_zero(v: &Vec<Scalar>) -> (r: bool)
    ensures
        r == has_zero(scalar_vals(v@)),
{
    let n = v.len();
    let zero = scalar_zero();
    let mut found = false;
    let mut i: usize = 0;
    while i < n
        invariant
            i <= n,
            n == v@.len(),
            scalar_val(zero) == 0,
            found == exists|j: int| 0 <= j < i && scalar_vals(v@)[j] == 0,
        decreases n - i,
    {
        if scalar_eq(&v[i], &zero) {
            proof {
                assert(scalar_vals(v@)[i as int] == 0);
            }
            found = true;
        }
        i = i + 1;
    }
    found
}

/// The element-wise squares of `v`, modulo the group order.
fn squares(v: &Vec<Scalar>) -> (r: Vec<Scalar>)
    ensures
        r@.len() == v@.len(),
        scalar_vals(r@) == seq_sq(scalar_vals(v@)),
{
    let n = v.len();
    let mut r: Vec<Scalar> = Vec::new();
    let mut i: usize = 0;
    while i < n
        invariant
            i <= n,
            n == v@.len(),
            r@.len() == i,
            forall|j: int| 0 <= j < i ==> scalar_val(#[trigger] r@[j]) == f_mul(
                scalar_val(v@[j]),
                scalar_val(v@[j]),
            ),
        decreases n - i,
    {
        r.push(scalar_mul(&v[i], &v[i]));
        i = i + 1;
    }
    proof {
        assert(scalar_vals(r@) =~= seq_sq(scalar_vals(v@)));
    }
    r
}

/// The tensor vector `s` of the verifier, built in `n` steps.
#[verifier::rlimit(100)]
#[verifier::loop_isolation(false)]
fn build_s(r_sq: &Vec<Scalar>, r_inv: &Vec<Scalar>, n: usize, l: usize) -> (r: Vec<Scalar>)
    requires
        r_sq@.len() == l,
        r_inv@.len() == l,
        l < 32,
        n as nat == pow2s(l as nat),
    ensures
        r@.len() == n,
        scalar_vals(r@) == s_seq(scalar_vals(r_sq@), scalar_vals(r_inv@), n as nat),
{
    let ghost sqv = scalar_vals(r_sq@);
    let ghost invv = scalar_vals(r_inv@);
    let mut s_vec: Vec<Scalar> = Vec::new();
    let first = prod_all(r_inv);
    s_vec.push(first);
    proof {
        crate::util::lemma_pow2s_pos(l as nat);
        assert(scalar_vals(s_vec@) =~= s_seq(sqv, invv, 1));
    }
    let mut i: usize = 1;
    while i < n
        invariant
            1 <= i <= n,
            s_vec@.len() == i,
            scalar_vals(s_vec@) == s_seq(sqv, invv, i as nat),
        decreases n - i,
    {
        let k = crate::util::log2_floor(i);
        proof {
            crate::util::lemma_log2_lt(i as nat, l as nat);
            crate::util::lemma_pow2s_log2_le(i as nat);
        }
        let pk = crate::util::pow2_exec(k);
        let term = scalar_mul(&s_vec[i - pk], &r_sq[l - 1 - k]);
        s_vec.push(term);
        proof {
            assert(scalar_vals(s_vec@) =~= s_seq(sqv, invv, (i + 1) as nat));
        }
        i = i + 1;
    }
    s_vec
}


/// Transcript determinism: the contract of `prove` pins every component of a
/// proof to the folding recursion of the instance, the witness, the key and
/// the initial transcript state, so two invocations with identical inputs and
/// an identical starting transcript yield identical proofs.
pub proof fn lemma_prove_deterministic(
    a: Seq<nat>,
    b: Seq<nat>,
    ck: Seq<Seq<u8>>,
    comm: Seq<u8>,
    c: nat,
    ckc: Seq<u8>,
    ts0: Seq<u8>,
    ls1: Seq<Seq<u8>>,
    rs1: Seq<Seq<u8>>,
    ah1: nat,
    ls2: Seq<Seq<u8>>,
    rs2: Seq<Seq<u8>>,
    ah2: nat,
)
    requires
        ({
            let pr = prove_init(a, b, ck, comm, c, ckc, ts0);
            let fin = rounds(pr.0, pr.1, log2(b.len()));
            ls1 == fin.ls && rs1 == fin.rs && ah1 == fin.a[0]
        }),
        ({
            let pr = prove_init(a, b, ck, comm, c, ckc, ts0);
            let fin = rounds(pr.0, pr.1, log2(b.len()));
            ls2 == fin.ls && rs2 == fin.rs && ah2 == fin.a[0]
        }),
    ensures
        ls1 == ls2,
        rs1 == rs2,
        ah1 == ah2,
{
}

/// Length rejection: a proof whose lengths do not fit the instance — unequal
/// cross-term lists, `n` not two to their length, or thirty-two or more
/// rounds — is rejected with `InvalidInputLength`, whatever its contents.
pub proof fn lemma_verify_length_rejection(
    ck: Seq<Seq<u8>>,
    ck_c: Seq<u8>,
    n: nat,
    comm: Seq<u8>,
    b: Seq<nat>,
    c: nat,
    ls: Seq<Seq<u8>>,
    rs: Seq<Seq<u8>>,
    a_hat: nat,
    ts0: Seq<u8>,
)
    requires
        !(b.len() == n && n == pow2s(ls.len()) && ls.len() == rs.len() && ls.len() < 32),
    ensures
        verify_spec(ck, ck_c, n, comm, b, c, ls, rs, a_hat, ts0) == Err::<(), IpaError>(
            IpaError::InvalidInputLength,
        ),
{
}

/// The first entry of the verifier's tensor vector is the product of the
/// inverted challenges.
pub proof fn lemma_tensor_first(r_sq: Seq<nat>, r_inv: Seq<nat>, n: nat)
    requires
        n >= 1,
    ensures
        s_seq(r_sq, r_inv, n)[0] == prod_val(r_inv),
    decreases n,
{
    if n > 1 {
        lemma_tensor_first(r_sq, r_inv, (n - 1) as nat);
    }
}


/// Multiplication modulo the group order is associative.
pub proof fn lemma_f_mul_assoc(x: nat, y: nat, z: nat)
    ensures
        f_mul(f_mul(x, y), z) == f_mul(x, f_mul(y, z)),
{
    let m = group_order() as int;
    lemma_mul_mod_noop_general((x * y) as int, z as int, m);
    lemma_mul_mod_noop_general(x as int, (y * z) as int, m);
    lemma_mul_is_associative(x as int, y as int, z as int);
}

/// Multiplication modulo the group order is commutative.
pub proof fn lemma_f_mul_comm(x: nat, y: nat)
    ensures
        f_mul(x, y) == f_mul(y, x),
{
    lemma_mul_is_commutative(x as int, y as int);
}

/// Multiplying one factor of a product by `m`, modulo the group order,
/// multiplies the product by `m`.
pub proof fn lemma_prod_scale_one(s1: Seq<nat>, s2: Seq<nat>, j: int, m: nat)
    requires
        s1.len() == s2.len(),
        0 <= j < s1.len(),
        s2[j] == f_mul(m, s1[j]),
        forall|p: int| 0 <= p < s1.len() && p != j ==> s1[p] == #[trigger] s2[p],
    ensures
        prod_val(s2) == f_mul(m, prod_val(s1)),
    decreases s1.len(),
{
    let p1 = prod_val(s1.drop_last());
    let x = s1.last();
    if j == s1.len() - 1 {
        assert(s1.drop_last() =~= s2.drop_last());
        // prod(s2) = f_mul(p1, f_mul(m, x)) = f_mul(f_mul(p1, m), x)
        //          = f_mul(f_mul(m, p1), x) = f_mul(m, f_mul(p1, x))
        lemma_f_mul_assoc(p1, m, x);
        lemma_f_mul_comm(p1, m);
        lemma_f_mul_assoc(m, p1, x);
    } else {
        lemma_prod_scale_one(s1.drop_last(), s2.drop_last(), j, m);
        assert(s1.last() == s2.last());
        // prod(s2) = f_mul(f_mul(m, p1), x) = f_mul(m, f_mul(p1, x))
        lemma_f_mul_assoc(m, p1, x);
    }
}

/// The factor the tensor closed form assigns to round `j` for entry `i`: the
/// inverted challenge, multiplied further by the squared challenge when bit
/// `l - 1 - j` of `i` is set.
pub open spec fn tensor_fac(r_sq: Seq<nat>, r_inv: Seq<nat>, l: nat, i: nat, j: int) -> nat {
    if bit_set(i, (l - 1 - j) as nat) {
        f_mul(r_sq[j], r_inv[j])
    } else {
        r_inv[j]
    }
}

/// The factor list of the tensor closed form for entry `i`.
pub open spec fn tensor_seq(r_sq: Seq<nat>, r_inv: Seq<nat>, l: nat, i: nat) -> Seq<nat> {
    Seq::new(l, |j: int| tensor_fac(r_sq, r_inv, l, i, j))
}

pub proof fn lemma_s_seq_len(r_sq: Seq<nat>, r_inv: Seq<nat>, n: nat)
    ensures
        s_seq(r_sq, r_inv, n).len() == n,
    decreases n,
{
    if n > 1 {
        lemma_s_seq_len(r_sq, r_inv, (n - 1) as nat);
    }
}

/// Growing the tensor vector keeps its earlier entries.
pub proof fn lemma_s_seq_prefix(r_sq: Seq<nat>, r_inv: Seq<nat>, m: nat, n: nat, i: int)
    requires
        0 <= i < m <= n,
    ensures
        s_seq(r_sq, r_inv, n)[i] == s_seq(r_sq, r_inv, m)[i],
    decreases n,
{
    lemma_s_seq_len(r_sq, r_inv, (n - 1) as nat);
    if m < n {
        lemma_s_seq_prefix(r_sq, r_inv, m, (n - 1) as nat, i);
    }
}

/// The tensor structure of the verifier's `s` vector: entry `i` is the
/// product over the rounds `j` of `r_inv[j]`, multiplied further by
/// `r_sq[j]` exactly where bit `l - 1 - j` of `i` is set.
pub proof fn lemma_tensor_entry(r_sq: Seq<nat>, r_inv: Seq<nat>, n: nat, i: nat)
    requires
        r_sq.len() == r_inv.len(),
        n == pow2s(r_sq.len()),
        i < n,
    ensures
        s_seq(r_sq, r_inv, n)[i as int] == prod_val(tensor_seq(r_sq, r_inv, r_sq.len(), i)),
    decreases i,
{
    let l = r_sq.len();
    lemma_s_seq_len(r_sq, r_inv, n);
    if i == 0 {
        lemma_pow2s_pos(l);
        lemma_tensor_first(r_sq, r_inv, n);
        assert forall|j: int| 0 <= j < l implies tensor_seq(r_sq, r_inv, l, 0)[j] == r_inv[j] by {
            lemma_pow2s_pos((l - 1 - j) as nat);
            assert(0nat / pow2s((l - 1 - j) as nat) == 0);
        }
        assert(tensor_seq(r_sq, r_inv, l, 0) =~= r_inv);
    } else {
        let k = log2(i);
        lemma_log2_lt(i, l);
        lemma_pow2s_log2_le(i);
        lemma_pow2s_pos(k);
        let ip = (i - pow2s(k)) as nat;
        lemma_tensor_entry(r_sq, r_inv, n, ip);
        lemma_split_high_bit(i);
        let jstar = l - 1 - k;
        let t1 = tensor_seq(r_sq, r_inv, l, ip);
        let t2 = tensor_seq(r_sq, r_inv, l, i);
        assert((l - 1 - jstar) as nat == k);
        assert(t1[jstar as int] == r_inv[jstar as int]);
        assert(t2[jstar as int] == f_mul(r_sq[jstar as int], r_inv[jstar as int]));
        assert forall|p: int| 0 <= p < l && p != jstar implies t1[p] == #[trigger] t2[p] by {
            let q = (l - 1 - p) as nat;
            assert(q != k);
            assert(bit_set(ip, q) == bit_set(i, q));
        }
        lemma_prod_scale_one(t1, t2, jstar as int, r_sq[jstar as int]);
        // s[i] is defined as f_mul(s[i - 2^k], r_sq[l - 1 - k])
        lemma_s_seq_prefix(r_sq, r_inv, (i + 1) as nat, n, i as int);
        lemma_s_seq_len(r_sq, r_inv, i as nat);
        lemma_s_seq_prefix(r_sq, r_inv, (ip + 1) as nat, n, ip as int);
        lemma_s_seq_prefix(r_sq, r_inv, (ip + 1) as nat, i as nat, ip as int);
        assert(s_seq(r_sq, r_inv, (i + 1) as nat)[i as int] == f_mul(
            s_seq(r_sq, r_inv, i as nat)[ip as int],
            r_sq[jstar as int],
        ));
        lemma_f_mul_comm(prod_val(t1), r_sq[jstar as int]);
    }
}

/// The folding state with given vectors, key and transcript state, before any
/// cross terms.
pub open spec fn mk_state(a: Seq<nat>, b: Seq<nat>, ck: Seq<Seq<u8>>, st: Seq<u8>) -> RoundState {
    RoundState { a, b, ck, ls: Seq::empty(), rs: Seq::empty(), st }
}

/// `round_l`, `round_r`, `round_ch`, `round_st2` and the vector, key and
/// state fields of `round_step` read only `a`, `b`, `ck` and `st`.
pub proof fn lemma_round_same(s1: RoundState, s2: RoundState, ck_c: Seq<u8>)
    requires
        s1.a == s2.a,
        s1.b == s2.b,
        s1.ck == s2.ck,
        s1.st == s2.st,
    ensures
        round_l(s1, ck_c) == round_l(s2, ck_c),
        round_r(s1, ck_c) == round_r(s2, ck_c),
        round_ch(s1, ck_c) == round_ch(s2, ck_c),
        round_step(s1, ck_c).a == round_step(s2, ck_c).a,
        round_step(s1, ck_c).b == round_step(s2, ck_c).b,
        round_step(s1, ck_c).ck == round_step(s2, ck_c).ck,
        round_step(s1, ck_c).st == round_step(s2, ck_c).st,
        round_step(s1, ck_c).ls == s1.ls.push(round_l(s1, ck_c)),
        round_step(s1, ck_c).rs == s1.rs.push(round_r(s1, ck_c)),
        round_step(s2, ck_c).ls == s2.ls.push(round_l(s2, ck_c)),
        round_step(s2, ck_c).rs == s2.rs.push(round_r(s2, ck_c)),
{
    reveal(round_l);
    reveal(round_r);
    reveal(round_st2);
    reveal(round_ch);
    reveal(round_step);
}

/// The fold `x * v[i] + y * v[half + i]` of the two halves of `v`.
fn fold_halves(v: &Vec<Scalar>, half: usize, x: &Scalar, y: &Scalar) -> (r: Vec<Scalar>)
    requires
        v@.len() == 2 * half,
    ensures
        r@.len() == half,
        scalar_vals(r@) == Seq::new(
            half as nat,
            |i: int| f_add(
                f_mul(scalar_vals(v@)[i], scalar_val(*x)),
                f_mul(scalar_val(*y), scalar_vals(v@)[half + i]),
            ),
        ),
{
    let mlen = v.len();
    let mut r: Vec<Scalar> = Vec::new();
    let mut j: usize = 0;
    while j < half
        invariant
            j <= half,
            mlen == v@.len() == 2 * half,
            r@.len() == j,
            forall|jj: int| 0 <= jj < j ==> scalar_val(#[trigger] r@[jj]) == f_add(
                f_mul(scalar_val(v@[jj]), scalar_val(*x)),
                f_mul(scalar_val(*y), scalar_val(v@[half + jj])),
            ),
        decreases half - j,
    {
        let t1 = scalar_mul(&v[j], x);
        let t2 = scalar_mul(y, &v[half + j]);
        r.push(scalar_add(&t1, &t2));
        j = j + 1;
    }
    proof {
        assert(scalar_vals(r@) =~= Seq::new(
            half as nat,
            |i: int| f_add(
                f_mul(scalar_vals(v@)[i], scalar_val(*x)),
                f_mul(scalar_val(*y), scalar_vals(v@)[half + i]),
            ),
        ));
    }
    r
}

/// One folding round of the prover: commit to the two cross terms, absorb
/// them, squeeze the challenge, and fold the vectors and the key.
#[verifier::rlimit(100)]
fn prove_round(
    a_vec: Vec<Scalar>,
    b_vec: Vec<Scalar>,
    cur_ck: CommitmentKey,
    ck_c_s: &CommitmentKey,
    transcript: &mut Transcript,
    lab_l: &Vec<u8>,
    lab_rr: &Vec<u8>,
    lab_ch: &Vec<u8>,
) -> (r: Result<(Vec<Scalar>, Vec<Scalar>, CommitmentKey, CompressedCommitment, CompressedCommitment), IpaError>)
    requires
        a_vec@.len() == b_vec@.len(),
        a_vec@.len() == cur_ck.gens@.len(),
        a_vec@.len() >= 2,
        a_vec@.len() % 2 == 0,
        ck_c_s.gens@.len() == 1,
        lab_l@ == lab_left(),
        lab_rr@ == lab_right(),
        lab_ch@ == lab_challenge(),
    ensures
        ({
            let cur = mk_state(
                scalar_vals(a_vec@),
                scalar_vals(b_vec@),
                cur_ck.vals(),
                ts_view(*old(transcript)),
            );
            let ckc = ck_c_s.vals()[0];
            let nxt = round_step(cur, ckc);
            &&& (r is Ok <==> round_ch(cur, ckc) != 0)
            &&& (r is Err ==> r == Err::<
                (Vec<Scalar>, Vec<Scalar>, CommitmentKey, CompressedCommitment, CompressedCommitment),
                IpaError,
            >(IpaError::TranscriptError) && ts_view(*final(transcript)) == nxt.st)
            &&& (r matches Ok(out) ==> {
                &&& scalar_vals(out.0@) == nxt.a
                &&& scalar_vals(out.1@) == nxt.b
                &&& out.2.vals() == nxt.ck
                &&& out.3.bytes@ == round_l(cur, ckc)
                &&& out.4.bytes@ == round_r(cur, ckc)
                &&& ts_view(*final(transcript)) == nxt.st
                &&& out.0@.len() == a_vec@.len() / 2
                &&& out.1@.len() == a_vec@.len() / 2
                &&& out.2.gens@.len() == a_vec@.len() / 2
            })
        }),
{
    proof {
        reveal(round_l);
        reveal(round_r);
        reveal(round_st2);
        reveal(round_ch);
        reveal(round_step);
    }
    let ghost cur = mk_state(
        scalar_vals(a_vec@),
        scalar_vals(b_vec@),
        cur_ck.vals(),
        ts_view(*transcript),
    );
    let ghost ckc = ck_c_s.vals()[0];
    let m = a_vec.len();
    let half = m / 2;

    let a_l = vec_range(&a_vec, 0, half);
    let a_r = vec_range(&a_vec, half, m);
    let b_l = vec_range(&b_vec, 0, half);
    let b_r = vec_range(&b_vec, half, m);
    let (ck_l, ck_r) = cur_ck.split_at(half);

    proof {
        assert(scalar_vals(a_l@) =~= cur.a.take(half as int));
        assert(scalar_vals(a_r@) =~= cur.a.skip(half as int));
        assert(scalar_vals(b_l@) =~= cur.b.take(half as int));
        assert(scalar_vals(b_r@) =~= cur.b.skip(half as int));
        assert(ck_l.vals() =~= cur.ck.take(half as int));
        assert(ck_r.vals() =~= cur.ck.skip(half as int));
    }

    let c_l = inner_product(&a_l, &b_r);
    let c_r = inner_product(&a_r, &b_l);

    let gens_l = ck_r.combine(ck_c_s);
    let mut coeff_l = a_l;
    coeff_l.push(c_l);
    proof {
        assert(gens_l.vals() =~= cur.ck.skip(half as int).push(ckc));
        assert(scalar_vals(coeff_l@) =~= cur.a.take(half as int).push(
            ip_val(cur.a.take(half as int), cur.b.skip(half as int)),
        ));
    }
    let l_point = gens_l.commit(&coeff_l);
    let l_cc = compress_commitment(&l_point);
    proof {
        assert(l_cc.bytes@ == round_l(cur, ckc));
    }

    let gens_r = ck_l.combine(ck_c_s);
    let mut coeff_r = a_r;
    coeff_r.push(c_r);
    proof {
        assert(gens_r.vals() =~= cur.ck.take(half as int).push(ckc));
        assert(scalar_vals(coeff_r@) =~= cur.a.skip(half as int).push(
            ip_val(cur.a.skip(half as int), cur.b.take(half as int)),
        ));
    }
    let r_point = gens_r.commit(&coeff_r);
    let r_cc = compress_commitment(&r_point);
    proof {
        assert(r_cc.bytes@ == round_r(cur, ckc));
    }

    absorb_bytes(transcript, lab_l, &l_cc.bytes);
    absorb_bytes(transcript, lab_rr, &r_cc.bytes);
    proof {
        assert(ts_view(*transcript) == round_st2(cur, ckc));
    }

    let ch = squeeze_scalar(transcript, lab_ch);
    proof {
        assert(scalar_val(ch) == round_ch(cur, ckc));
    }
    let zero = scalar_zero();
    if scalar_eq(&ch, &zero) {
        return Err(IpaError::TranscriptError);
    }
    let ch_inv = scalar_invert(&ch);

    let new_a = fold_halves(&a_vec, half, &ch, &ch_inv);
    let new_b = fold_halves(&b_vec, half, &ch_inv, &ch);
    let folded_ck = CommitmentKey::fold(&ck_l, &ck_r, &ch_inv, &ch);

    proof {
        let nxt = round_step(cur, ckc);
        assert(scalar_vals(new_a@) =~= nxt.a);
        assert(scalar_vals(new_b@) =~= nxt.b);
        assert(folded_ck.vals() =~= nxt.ck);
    }
    Ok((new_a, new_b, folded_ck, l_cc, r_cc))
}

impl InnerProductArgument {
    /// Prove an inner-product instance: run `log2 n` folding rounds, emitting
    /// the two cross-term commitments of each round into the transcript and
    /// folding by the squeezed challenge.
    ///
    /// The outcome is pinned down: on well-formed lengths the proof equals,
    /// component by component, the folding recursion applied to the inputs
    /// and the initial transcript state, so identical invocations yield
    /// identical proofs. Length violations fail with `InvalidInputLength`; a
    /// zero challenge (a negligible event) fails with `TranscriptError`.
    #[verifier::rlimit(100)]
    #[verifier::loop_isolation(false)]
    pub fn prove(
        ck: &CommitmentKey,
        ck_c: &CommitmentKey,
        U: &InnerProductInstance,
        W: &InnerProductWitness,
        transcript: &mut Transcript,
    ) -> (r: Result<InnerProductArgument, IpaError>)
        requires
            ck.gens@.len() >= U.b_vec@.len(),
            ck_c.gens@.len() == 1,
        ensures
            prove_post(
                scalar_vals(W.a_vec@),
                scalar_vals(U.b_vec@),
                ck.vals(),
                point_val(U.comm_a_vec),
                scalar_val(U.c),
                ck_c.vals()[0],
                ts_view(*old(transcript)),
                ts_view(*final(transcript)),
                r,
            ),
    {
        let ghost ts0 = ts_view(*transcript);
        let lab_ds = label_dom_sep();
        let lab_proto = label_protocol();
        let lab_u = label_instance();
        let lab_l = label_left();
        let lab_rr = label_right();
        let lab_ch = label_challenge();

        absorb_bytes(transcript, &lab_ds, &lab_proto);

        let n = U.b_vec.len();
        if n != W.a_vec.len() {
            return Err(IpaError::InvalidInputLength);
        }
        let l = match log2_exact(n) {
            Some(l) => l,
            None => {
                return Err(IpaError::InvalidInputLength);
            },
        };

        let (mut cur_ck, _) = ck.split_at(n);

        let u_bytes = U.to_transcript_bytes();
        absorb_bytes(transcript, &lab_u, &u_bytes);

        let r0 = squeeze_scalar(transcript, &lab_ch);
        let mut ck_c_s = ck_c.duplicate();
        ck_c_s.scale(&r0);

        let ghost pr = prove_init(
            scalar_vals(W.a_vec@),
            scalar_vals(U.b_vec@),
            ck.vals(),
            point_val(U.comm_a_vec),
            scalar_val(U.c),
            ck_c.vals()[0],
            ts0,
        );
        let ghost s0 = pr.0;
        let ghost ckc = pr.1;
        proof {
            assert(cur_ck.vals() =~= s0.ck);
            assert(ck_c_s.vals() =~= seq![ckc]);
            assert(ts_view(*transcript) == s0.st);
        }

        let mut a_vec = vec_range(&W.a_vec, 0, W.a_vec.len());
        let mut b_vec = vec_range(&U.b_vec, 0, U.b_vec.len());
        let mut L_vec: Vec<CompressedCommitment> = Vec::new();
        let mut R_vec: Vec<CompressedCommitment> = Vec::new();

        proof {
            assert(scalar_vals(a_vec@) =~= s0.a);
            assert(scalar_vals(b_vec@) =~= s0.b);
            assert(cc_vals(L_vec@) =~= Seq::<Seq<u8>>::empty());
            assert(cc_vals(R_vec@) =~= Seq::<Seq<u8>>::empty());
        }

        let mut i: usize = 0;
        while i < l
            invariant
                i <= l,
                n as nat == pow2s(l as nat),
                lab_l@ == lab_left(),
                lab_rr@ == lab_right(),
                lab_ch@ == lab_challenge(),
                ck_c_s.gens@.len() == 1,
                ck_c_s.vals() == seq![ckc],
                a_vec@.len() == pow2s((l - i) as nat),
                b_vec@.len() == a_vec@.len(),
                cur_ck.gens@.len() == a_vec@.len(),
                L_vec@.len() == i,
                R_vec@.len() == i,
                scalar_vals(a_vec@) == rounds(s0, ckc, i as nat).a,
                scalar_vals(b_vec@) == rounds(s0, ckc, i as nat).b,
                cur_ck.vals() == rounds(s0, ckc, i as nat).ck,
                cc_vals(L_vec@) == rounds(s0, ckc, i as nat).ls,
                cc_vals(R_vec@) == rounds(s0, ckc, i as nat).rs,
                ts_view(*transcript) == rounds(s0, ckc, i as nat).st,
                rounds_ok(s0, ckc, i as nat),
            decreases l - i,
        {
            let ghost cur = rounds(s0, ckc, i as nat);
            proof {
                assert(pow2s((l - i) as nat) == 2 * pow2s((l - i - 1) as nat));
                crate::util::lemma_pow2s_pos((l - i - 1) as nat);
            }
            let ghost prev = mk_state(cur.a, cur.b, cur.ck, cur.st);
            match prove_round(a_vec, b_vec, cur_ck, &ck_c_s, transcript, &lab_l, &lab_rr, &lab_ch) {
                Ok(out) => {
                    proof {
                        lemma_round_same(prev, cur, ckc);
                        assert(rounds(s0, ckc, (i + 1) as nat) == round_step(cur, ckc));
                    }
                    a_vec = out.0;
                    b_vec = out.1;
                    cur_ck = out.2;
                    L_vec.push(out.3);
                    R_vec.push(out.4);
                    proof {
                        assert(cc_vals(L_vec@) =~= cur.ls.push(round_l(cur, ckc)));
                        assert(cc_vals(R_vec@) =~= cur.rs.push(round_r(cur, ckc)));
                        assert(a_vec@.len() == pow2s((l - i - 1) as nat));
                    }
                },
                Err(_) => {
                    proof {
                        lemma_round_same(prev, cur, ckc);
                        assert(!rounds_ok(s0, ckc, (i + 1) as nat));
                        if rounds_ok(s0, ckc, l as nat) {
                            lemma_rounds_ok_mono(s0, ckc, (i + 1) as nat, l as nat);
                        }
                        assert(rounds(s0, ckc, (i + 1) as nat) == round_step(cur, ckc));
                        assert(round_ch(rounds(s0, ckc, i as nat), ckc) == 0);
                        assert(ts_view(*transcript) == rounds(s0, ckc, (i + 1) as nat).st);
                    }
                    return Err(IpaError::TranscriptError);
                },
            }
            i = i + 1;
        }

        proof {
            assert(a_vec@.len() == pow2s(0) == 1);
        }
        let a_hat = a_vec[0];
        Ok(InnerProductArgument { L_vec, R_vec, a_hat })
    }

    /// Verify an inner-product argument against an instance of size `n`.
    ///
    /// The outcome is pinned down by `verify_spec`: it says exactly which
    /// error each malformed input earns and that acceptance is equivalent to
    /// the final group equation over the replayed challenges.
    #[verifier::rlimit(100)]
    #[verifier::loop_isolation(false)]
    pub fn verify(
        &self,
        ck: &CommitmentKey,
        ck_c: &CommitmentKey,
        n: usize,
        U: &InnerProductInstance,
        transcript: &mut Transcript,
    ) -> (r: Result<(), IpaError>)
        requires
            ck.gens@.len() >= U.b_vec@.len(),
            ck_c.gens@.len() == 1,
            cc_bounded(self.L_vec@),
            cc_bounded(self.R_vec@),
        ensures
            r == verify_spec(
                ck.vals(),
                ck_c.vals()[0],
                n as nat,
                point_val(U.comm_a_vec),
                scalar_vals(U.b_vec@),
                scalar_val(U.c),
                cc_vals(self.L_vec@),
                cc_vals(self.R_vec@),
                scalar_val(self.a_hat),
                ts_view(*old(transcript)),
            ),
            ts_view(*final(transcript)) == verify_ts(
                n as nat,
                U.b_vec@.len(),
                point_val(U.comm_a_vec),
                scalar_val(U.c),
                cc_vals(self.L_vec@),
                cc_vals(self.R_vec@),
                ts_view(*old(transcript)),
            ),
    {
        let ghost ts0 = ts_view(*transcript);
        let ghost ls = cc_vals(self.L_vec@);
        let ghost rs = cc_vals(self.R_vec@);
        let lab_ds = label_dom_sep();
        let lab_proto = label_protocol();
        let lab_u = label_instance();
        let lab_l = label_left();
        let lab_rr = label_right();
        let lab_ch = label_challenge();

        let (ck_t, _) = ck.split_at(U.b_vec.len());
        absorb_bytes(transcript, &lab_ds, &lab_proto);

        let l = self.L_vec.len();
        if U.b_vec.len() != n || l >= 32 || l != self.R_vec.len() {
            return Err(IpaError::InvalidInputLength);
        }
        let p2 = crate::util::pow2_exec(l);
        if n != p2 {
            return Err(IpaError::InvalidInputLength);
        }
        proof {
            assert(verify_lengths_ok(n as nat, U.b_vec@.len(), ls.len(), rs.len()));
        }

        let u_bytes = U.to_transcript_bytes();
        absorb_bytes(transcript, &lab_u, &u_bytes);
        let r0 = squeeze_scalar(transcript, &lab_ch);
        let mut ck_c_s = ck_c.duplicate();
        ck_c_s.scale(&r0);
        let ghost ckc_s = point_mul_of(ck_c.vals()[0], scalar_val(r0));
        proof {
            assert(ck_c_s.vals() =~= seq![ckc_s]);
        }

        // replay the challenges from the cross terms
        let ghost st1 = ts_view(*transcript);
        let mut chs: Vec<Scalar> = Vec::new();
        let mut i: usize = 0;
        while i < l
            invariant
                i <= l,
                l == self.L_vec@.len() == self.R_vec@.len(),
                chs@.len() == i,
                lab_l@ == lab_left(),
                lab_rr@ == lab_right(),
                lab_ch@ == lab_challenge(),
                scalar_vals(chs@) == ver_chs(st1, ls, rs, i as nat).0,
                ts_view(*transcript) == ver_chs(st1, ls, rs, i as nat).1,
            decreases l - i,
        {
            absorb_bytes(transcript, &lab_l, &self.L_vec[i].bytes);
            absorb_bytes(transcript, &lab_rr, &self.R_vec[i].bytes);
            let ch = squeeze_scalar(transcript, &lab_ch);
            chs.push(ch);
            proof {
                assert(scalar_vals(chs@) =~= ver_chs(st1, ls, rs, (i + 1) as nat).0);
            }
            i = i + 1;
        }
        let ghost chv = ver_chs(st1, ls, rs, l as nat).0;

        if any_zero(&chs) {
            return Err(IpaError::TranscriptError);
        }

        let r_square = squares(&chs);
        let mut r_inverse = vec_range(&chs, 0, l);
        proof {
            assert(r_inverse@ =~= chs@);
            assert forall|j: int| 0 <= j < l implies scalar_val(#[trigger] r_inverse@[j]) != 0 by {
                assert(scalar_vals(chs@)[j] == scalar_val(chs@[j]));
                assert(!(0 <= j < chv.len() && chv[j] == 0));
            }
        }
        crate::scalar::scalar_batch_invert(&mut r_inverse);
        proof {
            assert(scalar_vals(r_inverse@) =~= seq_inv(chv));
        }
        let r_inverse_square = squares(&r_inverse);

        let s_vec = build_s(&r_square, &r_inverse, n, l);

        // the augmented commitment P = C_a + c * (r0 * G_c)
        let mut c_coeff: Vec<Scalar> = Vec::new();
        c_coeff.push(U.c);
        let c_comm = ck_c_s.commit(&c_coeff);
        let p_point = point_add(&U.comm_a_vec, &c_comm);
        proof {
            assert(scalar_vals(c_coeff@) =~= seq![scalar_val(U.c)]);
            assert(point_val(p_point) == point_add_of(
                point_val(U.comm_a_vec),
                msm_of(seq![ckc_s], seq![scalar_val(U.c)]),
            ));
        }

        let ck_hat_point = ck_t.commit(&s_vec);
        proof {
            assert(ck_t.vals() =~= ck.vals().take(n as int));
        }
        let b_hat = inner_product(&U.b_vec, &s_vec);

        let ck_l = match CommitmentKey::reinterpret_commitments_as_ck(&self.L_vec) {
            Ok(k) => k,
            Err(_) => {
                return Err(IpaError::InvalidPCS);
            },
        };
        let ck_r = match CommitmentKey::reinterpret_commitments_as_ck(&self.R_vec) {
            Ok(k) => k,
            Err(_) => {
                return Err(IpaError::InvalidPCS);
            },
        };
        let mut p_gens: Vec<RistrettoPoint> = Vec::new();
        p_gens.push(p_point);
        let ck_p = CommitmentKey { gens: p_gens };
        let ck_folded = ck_l.combine(&ck_r).combine(&ck_p);

        let mut coeffs = vec_concat(&r_square, &r_inverse_square);
        coeffs.push(crate::scalar::scalar_one());
        let p_hat = ck_folded.commit(&coeffs);
        proof {
            assert(ck_folded.vals() =~= ls + rs + seq![point_val(p_point)]);
            assert(scalar_vals(coeffs@) =~= seq_sq(chv) + seq_sq(seq_inv(chv)) + seq![1nat]);
        }

        let mut rhs_gens: Vec<RistrettoPoint> = Vec::new();
        rhs_gens.push(ck_hat_point);
        rhs_gens.push(ck_c_s.gens[0]);
        let ck_rhs = CommitmentKey { gens: rhs_gens };
        let mut rhs_coeffs: Vec<Scalar> = Vec::new();
        rhs_coeffs.push(self.a_hat);
        rhs_coeffs.push(scalar_mul(&self.a_hat, &b_hat));
        let rhs = ck_rhs.commit(&rhs_coeffs);
        proof {
            assert(point_val(ck_c_s.gens@[0]) == ck_c_s.vals()[0]);
            assert(ck_c_s.vals()[0] == ckc_s);
            assert(ck_rhs.vals() =~= seq![point_val(ck_hat_point), ckc_s]);
            assert(scalar_vals(rhs_coeffs@) =~= seq![
                scalar_val(self.a_hat),
                f_mul(scalar_val(self.a_hat), scalar_val(b_hat)),
            ]);
        }

        if point_eq(&p_hat, &rhs) {
            Ok(())
        } else {
            Err(IpaError::InvalidPCS)
        }
    }
}

} // verus!
