//! Exact integer arithmetic used by the shape rasterizers.
use vstd::prelude::*;

verus! {

/// `s` is the integer square root of `n`: the largest natural number whose
/// square does not exceed `n`.
pub open spec fn is_isqrt(n: nat, s: nat) -> bool {
    s * s <= n < (s + 1) * (s + 1)
}

/// The integer square root of `n`, i.e. the floor of its real square root.
pub open spec fn spec_isqrt(n: nat) -> nat {
    choose|s: nat| is_isqrt(n, s)
}

/// Squaring is monotone on the natural numbers.
pub proof fn lemma_square_monotone(a: nat, b: nat)
    requires
        a <= b,
    ensures
        a * a <= b * b,
{
    assert(a * a <= b * b) by (nonlinear_arith)
        requires
            a <= b,
    ;
}

/// At most one number is the integer square root of `n`.
pub proof fn lemma_isqrt_unique(n: nat, a: nat, b: nat)
    requires
        is_isqrt(n, a),
        is_isqrt(n, b),
    ensures
        a == b,
{
    if a < b {
        lemma_square_monotone(a + 1, b);
    }
    if b < a {
        lemma_square_monotone(b + 1, a);
    }
}

/// Any number that brackets `n` between its square and the next square is
/// the integer square root of `n`.
pub proof fn lemma_isqrt_is(n: nat, s: nat)
    requires
        is_isqrt(n, s),
    ensures
        spec_isqrt(n) == s,
{
    lemma_isqrt_unique(n, s, spec_isqrt(n));
}

/// Computes the integer square root by bisection.
pub fn isqrt(n: u128) -> (s: u128)
    ensures
        is_isqrt(n as nat, s as nat),
        s == spec_isqrt(n as nat),
        s < 0x1_0000_0000_0000_0000,
{
    let mut lo: u128 = 0;
    let mut hi: u128 = 0x1_0000_0000_0000_0000;
    assert(0x1_0000_0000_0000_0000u128 * 0x1_0000_0000_0000_0000u128 > n) by (nonlinear_arith)
        requires
            n <= u128::MAX,
    ;
    while hi - lo > 1
        invariant
            lo < hi <= 0x1_0000_0000_0000_0000,
            lo * lo <= n < hi * hi,
        decreases hi - lo,
    {
        let mid: u128 = lo + (hi - lo) / 2;
        assert(mid * mid <= 0xffff_ffff_ffff_ffff * 0xffff_ffff_ffff_ffff) by (nonlinear_arith)
            requires
                0 <= mid <= 0xffff_ffff_ffff_ffff,
        ;
        if mid * mid <= n {
            lo = mid;
        } else {
            hi = mid;
        }
    }
    proof {
        lemma_isqrt_is(n as nat, lo as nat);
    }
    lo
}

/// The integer nearest to the quotient `n / d`, where a quotient that lies
/// exactly halfway between two integers goes to the one farther from zero.
pub open spec fn spec_round_div(n: int, d: int) -> int
    recommends
        d > 0,
{
    if n >= 0 {
        (2 * n + d) / (2 * d)
    } else {
        -((2 * (-n) + d) / (2 * d))
    }
}

/// The rounded quotient differs from the exact quotient by at most one
/// half.
pub proof fn lemma_round_div_nearest(n: int, d: int)
    requires
        d > 0,
    ensures
        -d <= 2 * n - 2 * d * spec_round_div(n, d) <= d,
{
    let q = spec_round_div(n, d);
    let m = if n >= 0 { n } else { -n };
    let a = (2 * m + d) / (2 * d);
    let r = (2 * m + d) % (2 * d);
    vstd::arithmetic::div_mod::lemma_fundamental_div_mod(2 * m + d, 2 * d);
    vstd::arithmetic::div_mod::lemma_mod_bound(2 * m + d, 2 * d);
    assert(2 * m - 2 * d * a == r - d);
    if n < 0 {
        assert(2 * d * q == -(2 * d * a)) by (nonlinear_arith)
            requires
                q == -a,
        ;
    }
}

/// A quotient that lies between two integers rounds to a value between them.
pub proof fn lemma_round_div_between(n: int, d: int, lo: int, hi: int)
    requires
        d > 0,
        lo * d <= n <= hi * d,
    ensures
        lo <= spec_round_div(n, d) <= hi,
{
    lemma_round_div_nearest(n, d);
    let q = spec_round_div(n, d);
    assert(lo <= q) by (nonlinear_arith)
        requires
            d > 0,
            lo * d <= n,
            2 * n - 2 * d * q <= d,
    ;
    assert(q <= hi) by (nonlinear_arith)
        requires
            d > 0,
            n <= hi * d,
            -d <= 2 * n - 2 * d * q,
    ;
}

/// A multiple of the divisor rounds to its exact quotient.
pub proof fn lemma_round_div_exact(k: int, d: int)
    requires
        d > 0,
    ensures
        spec_round_div(k * d, d) == k,
{
    lemma_round_div_between(k * d, d, k, k);
}

/// Divides with rounding to the nearest integer, halves away from zero.
pub fn round_div(n: i128, d: i128) -> (q: i128)
    requires
        d > 0,
        -0x2_0000_0000_0000_0000 <= n <= 0x2_0000_0000_0000_0000,
        d <= 0x1_0000_0000_0000_0000,
    ensures
        q == spec_round_div(n as int, d as int),
{
    if n >= 0 {
        (2 * n + d) / (2 * d)
    } else {
        -((2 * (-n) + d) / (2 * d))
    }
}

/// Every natural number has an integer square root.
pub proof fn lemma_isqrt_exists(n: nat)
    ensures
        is_isqrt(n, spec_isqrt(n)),
    decreases n,
{
    if n == 0 {
        assert(0nat * 0nat <= 0 < (0nat + 1) * (0nat + 1)) by (nonlinear_arith);
        assert(is_isqrt(0, 0));
    } else {
        lemma_isqrt_exists((n - 1) as nat);
        let s = spec_isqrt((n - 1) as nat);
        if (s + 1) * (s + 1) <= n {
            assert((s + 2) * (s + 2) > n) by (nonlinear_arith)
                requires
                    n - 1 < (s + 1) * (s + 1),
            ;
            assert(is_isqrt(n, s + 1));
        } else {
            assert(is_isqrt(n, s));
        }
    }
}

/// When the dividend grows by no more than the divisor, the rounded
/// quotient grows by one at most, and it does not shrink.
pub proof fn lemma_round_div_step(n: int, delta: int, d: int)
    requires
        d > 0,
        0 <= delta < d,
    ensures
        spec_round_div(n, d) <= spec_round_div(n + delta, d) <= spec_round_div(n, d) + 1,
{
    let q0 = spec_round_div(n, d);
    let q1 = spec_round_div(n + delta, d);
    lemma_round_div_nearest(n, d);
    lemma_round_div_nearest(n + delta, d);
    assert(q1 <= q0 + 1) by (nonlinear_arith)
        requires
            d > 0,
            0 <= delta < d,
            2 * n - 2 * d * q0 <= d,
            -d <= 2 * (n + delta) - 2 * d * q1,
    ;
    lemma_round_div_monotone(n, n + delta, d);
}

/// A larger dividend does not give a smaller rounded quotient.
pub proof fn lemma_round_div_monotone(n: int, m: int, d: int)
    requires
        d > 0,
        n <= m,
    ensures
        spec_round_div(n, d) <= spec_round_div(m, d),
{
    if n >= 0 {
        vstd::arithmetic::div_mod::lemma_div_is_ordered(2 * n + d, 2 * m + d, 2 * d);
    } else if m < 0 {
        vstd::arithmetic::div_mod::lemma_div_is_ordered(2 * (-m) + d, 2 * (-n) + d, 2 * d);
    } else {
        vstd::arithmetic::div_mod::lemma_div_pos_is_pos(2 * (-n) + d, 2 * d);
        vstd::arithmetic::div_mod::lemma_div_pos_is_pos(2 * m + d, 2 * d);
    }
}

} // verus!
