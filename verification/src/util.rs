//! Small helpers: powers of two, base-two logarithms, bits, and copies of
//! vector ranges.
use vstd::prelude::*;

use vstd::arithmetic::div_mod::lemma_div_multiples_vanish_fancy;
use vstd::arithmetic::div_mod::lemma_hoist_over_denominator;
use vstd::arithmetic::div_mod::lemma_mod_multiples_vanish;
use vstd::arithmetic::mul::lemma_mul_is_associative;

verus! {

/// Whether bit `p` of `i` is set.
pub open spec fn bit_set(i: nat, p: nat) -> bool {
    (i / pow2s(p)) % 2 == 1
}

/// Two to the `k`.
pub open spec fn pow2s(k: nat) -> nat
    decreases k,
{
    if k == 0 {
        1
    } else {
        2 * pow2s((k - 1) as nat)
    }
}

/// Whether `n` is a power of two.
pub open spec fn is_power_of_2(n: nat) -> bool
    decreases n,
{
    if n == 0 {
        false
    } else if n == 1 {
        true
    } else {
        n % 2 == 0 && is_power_of_2(n / 2)
    }
}

/// The floor of the base-two logarithm of `n`.
pub open spec fn log2(n: nat) -> nat
    decreases n,
{
    if n <= 1 {
        0
    } else {
        1 + log2(n / 2)
    }
}

pub proof fn lemma_pow2s_pos(k: nat)
    ensures
        pow2s(k) >= 1,
    decreases k,
{
    if k > 0 {
        lemma_pow2s_pos((k - 1) as nat);
    }
}

pub proof fn lemma_pow2s_log2(n: nat)
    requires
        is_power_of_2(n),
    ensures
        pow2s(log2(n)) == n,
    decreases n,
{
    if n > 1 {
        lemma_pow2s_log2(n / 2);
    }
}

pub proof fn lemma_log2_pow2s(k: nat)
    ensures
        is_power_of_2(pow2s(k)),
        log2(pow2s(k)) == k,
    decreases k,
{
    if k > 0 {
        lemma_log2_pow2s((k - 1) as nat);
        lemma_pow2s_pos((k - 1) as nat);
    }
}

pub proof fn lemma_pow2s_monotonic(a: nat, b: nat)
    requires
        a <= b,
    ensures
        pow2s(a) <= pow2s(b),
    decreases b,
{
    if a < b {
        lemma_pow2s_monotonic(a, (b - 1) as nat);
        lemma_pow2s_pos((b - 1) as nat);
    }
}

pub proof fn lemma_log2_lt(i: nat, l: nat)
    requires
        1 <= i < pow2s(l),
    ensures
        log2(i) < l,
    decreases i,
{
    if i == 1 {
        if l == 0 {
            assert(pow2s(0) == 1);
        }
    } else {
        assert(l >= 1) by {
            if l == 0 {
                assert(pow2s(0) == 1);
            }
        }
        assert(pow2s(l) == 2 * pow2s((l - 1) as nat));
        lemma_log2_lt(i / 2, (l - 1) as nat);
    }
}

pub proof fn lemma_pow2s_log2_le(i: nat)
    requires
        i >= 1,
    ensures
        pow2s(log2(i)) <= i < 2 * pow2s(log2(i)),
    decreases i,
{
    if i > 1 {
        lemma_pow2s_log2_le(i / 2);
    }
}

pub proof fn lemma_log2_lt_self(n: nat)
    requires
        n >= 1,
    ensures
        log2(n) < n,
    decreases n,
{
    if n > 1 {
        lemma_log2_lt_self(n / 2);
    }
}


pub proof fn lemma_pow2s_adds(a: nat, b: nat)
    ensures
        pow2s(a + b) == pow2s(a) * pow2s(b),
    decreases a,
{
    if a > 0 {
        lemma_pow2s_adds((a - 1) as nat, b);
        assert(pow2s(a + b) == 2 * pow2s((a + b - 1) as nat));
        assert((a + b - 1) as nat == (a - 1) as nat + b);
        assert(pow2s(a) == 2 * pow2s((a - 1) as nat));
        assert(pow2s(a + b) == pow2s(a) * pow2s(b)) by (nonlinear_arith)
            requires
                pow2s(a + b) == 2 * pow2s((a - 1) as nat + b),
                pow2s((a - 1) as nat + b) == pow2s((a - 1) as nat) * pow2s(b),
                pow2s(a) == 2 * pow2s((a - 1) as nat),
        ;
    } else {
        assert(a == 0 && a + b == b);
        assert(pow2s(a) == 1);
        assert(pow2s(a) * pow2s(b) == pow2s(b));
    }
}

/// Splitting off the highest set bit of `i` clears exactly that bit: with
/// `k` the position of the highest bit, `i - 2^k` has bit `k` clear and
/// every other bit as in `i`.
pub proof fn lemma_split_high_bit(i: nat)
    requires
        i >= 1,
    ensures
        bit_set(i, log2(i)),
        !bit_set((i - pow2s(log2(i))) as nat, log2(i)),
        forall|p: nat| p != log2(i) ==> bit_set((i - pow2s(log2(i))) as nat, p) == bit_set(i, p),
{
    let k = log2(i);
    lemma_pow2s_log2_le(i);
    lemma_pow2s_pos(k);
    let d = pow2s(k);
    let ip = (i - d) as nat;
    assert(ip < d);
    assert(i / d == 1) by {
        lemma_div_multiples_vanish_fancy(1, ip as int, d as int);
        assert(d as int * 1 + ip == i);
    }
    assert(ip / d == 0) by {
        lemma_div_multiples_vanish_fancy(0, ip as int, d as int);
    }
    assert forall|p: nat| p != k implies bit_set(ip, p) == bit_set(i, p) by {
        lemma_pow2s_pos(p);
        let dp = pow2s(p);
        if p > k {
            lemma_pow2s_monotonic(k + 1, p);
            assert(i < pow2s((k + 1) as nat));
            assert(i / dp == 0) by {
                lemma_div_multiples_vanish_fancy(0, i as int, dp as int);
            }
            assert(ip / dp == 0) by {
                lemma_div_multiples_vanish_fancy(0, ip as int, dp as int);
            }
        } else {
            let e = (k - p) as nat;
            lemma_pow2s_adds(e, p);
            assert(pow2s(e) * dp == d);
            assert(ip as int / dp as int + pow2s(e) as int == (ip + pow2s(e) * dp) as int
                / dp as int) by {
                lemma_hoist_over_denominator(ip as int, pow2s(e) as int, dp);
            }
            assert(i / dp == ip / dp + pow2s(e));
            assert(pow2s(e) == 2 * pow2s((e - 1) as nat));
            assert((2 * pow2s((e - 1) as nat) as int + ip as int / dp as int) % 2 == (ip as int
                / dp as int) % 2) by {
                lemma_mod_multiples_vanish(pow2s((e - 1) as nat) as int, ip as int / dp as int, 2);
            }
        }
    }
}

/// The base-two logarithm of a power of two, or nothing when `n` is not one.
pub fn log2_exact(n: usize) -> (r: Option<usize>)
    ensures
        r is Some <==> is_power_of_2(n as nat),
        r matches Some(l) ==> l as nat == log2(n as nat) && n as nat == pow2s(l as nat),
{
    if n == 0 {
        return None;
    }
    let mut m: usize = n;
    let mut l: usize = 0;
    while m > 1
        invariant
            1 <= m <= n,
            is_power_of_2(n as nat) == is_power_of_2(m as nat),
            log2(n as nat) == log2(m as nat) + l,
        decreases m,
    {
        if m % 2 == 1 {
            return None;
        }
        proof {
            lemma_log2_lt_self(n as nat);
        }
        m = m / 2;
        l = l + 1;
    }
    proof {
        lemma_pow2s_log2(n as nat);
    }
    Some(l)
}

pub proof fn lemma_pow2s_31()
    ensures
        pow2s(31) == 0x80000000,
{
    reveal_with_fuel(pow2s, 32);
}

/// Two to the `l`, for small `l`.
pub fn pow2_exec(l: usize) -> (r: usize)
    requires
        l < 32,
    ensures
        r as nat == pow2s(l as nat),
        r >= 1,
{
    let mut p: usize = 1;
    let mut i: usize = 0;
    while i < l
        invariant
            i <= l < 32,
            p as nat == pow2s(i as nat),
        decreases l - i,
    {
        proof {
            lemma_pow2s_monotonic(i as nat + 1, 31);
            lemma_pow2s_31();
        }
        p = p * 2;
        i = i + 1;
    }
    proof {
        lemma_pow2s_pos(l as nat);
    }
    p
}

/// The floor of the base-two logarithm of `i`.
pub fn log2_floor(i: usize) -> (r: usize)
    requires
        i >= 1,
    ensures
        r as nat == log2(i as nat),
{
    let mut m: usize = i;
    let mut k: usize = 0;
    while m > 1
        invariant
            1 <= m <= i,
            log2(i as nat) == log2(m as nat) + k,
        decreases m,
    {
        proof {
            lemma_log2_lt_self(i as nat);
        }
        m = m / 2;
        k = k + 1;
    }
    k
}

/// The copy of `v[from..to]`.
pub fn vec_range<T: Copy>(v: &Vec<T>, from: usize, to: usize) -> (r: Vec<T>)
    requires
        from <= to <= v@.len(),
    ensures
        r@ == v@.subrange(from as int, to as int),
{
    let mut r: Vec<T> = Vec::new();
    let mut i: usize = from;
    while i < to
        invariant
            from <= i <= to <= v@.len(),
            r@ == v@.subrange(from as int, i as int),
        decreases to - i,
    {
        r.push(v[i]);
        proof {
            assert(r@ =~= v@.subrange(from as int, i + 1 as int));
        }
        i = i + 1;
    }
    r
}

/// The concatenation of `a` and `b`.
pub fn vec_concat<T: Copy>(a: &Vec<T>, b: &Vec<T>) -> (r: Vec<T>)
    ensures
        r@ == a@ + b@,
{
    let mut r = vec_range(a, 0, a.len());
    proof {
        assert(a@.subrange(0, a@.len() as int) =~= a@);
        assert(a@ + b@.subrange(0, 0) =~= a@);
    }
    let mut i: usize = 0;
    while i < b.len()
        invariant
            i <= b@.len(),
            r@ == a@ + b@.subrange(0, i as int),
        decreases b@.len() - i,
    {
        r.push(b[i]);
        proof {
            assert(r@ =~= a@ + b@.subrange(0, i + 1 as int));
        }
        i = i + 1;
    }
    proof {
        assert(a@ + b@.subrange(0, b@.len() as int) =~= a@ + b@);
    }
    r
}

} // verus!
