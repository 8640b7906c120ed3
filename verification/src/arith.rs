//! Integer square root and division facts shared by the invariant math.

use vstd::prelude::*;

verus! {

use vstd::arithmetic::div_mod::lemma_div_is_ordered;
use vstd::arithmetic::div_mod::lemma_div_multiples_vanish;
use vstd::arithmetic::div_mod::lemma_fundamental_div_mod;
use vstd::arithmetic::div_mod::lemma_div_pos_is_pos;

/// Largest natural number whose square does not exceed `n`.
pub open spec fn sqrt_floor(n: nat) -> nat
    decreases n,
{
    if n == 0 {
        0
    } else {
        let p = sqrt_floor((n - 1) as nat);
        if (p + 1) * (p + 1) <= n {
            p + 1
        } else {
            p
        }
    }
}

pub proof fn lemma_sqrt_floor_bounds(n: nat)
    ensures
        sqrt_floor(n) * sqrt_floor(n) <= n,
        n < (sqrt_floor(n) + 1) * (sqrt_floor(n) + 1),
    decreases n,
{
    if n == 0 {
        assert(n < (sqrt_floor(n) + 1) * (sqrt_floor(n) + 1)) by (nonlinear_arith)
            requires
                n == 0,
                sqrt_floor(n) == 0,
        ;
    } else {
        lemma_sqrt_floor_bounds((n - 1) as nat);
        let p = sqrt_floor((n - 1) as nat);
        assert(p * p <= n - 1);
        assert(n - 1 < (p + 1) * (p + 1));
        if (p + 1) * (p + 1) <= n {
            assert(sqrt_floor(n) == p + 1);
            assert(n <= (p + 1) * (p + 1));
            assert((p + 1) * (p + 1) + 1 <= (p + 2) * (p + 2)) by (nonlinear_arith);
        } else {
            assert(sqrt_floor(n) == p);
        }
    }
}

pub proof fn lemma_sqrt_floor_unique(n: nat, r: nat)
    requires
        r * r <= n,
        n < (r + 1) * (r + 1),
    ensures
        r == sqrt_floor(n),
{
    lemma_sqrt_floor_bounds(n);
    let s = sqrt_floor(n);
    if r < s {
        assert((r + 1) * (r + 1) <= s * s) by (nonlinear_arith)
            requires
                r + 1 <= s,
        ;
    }
    if s < r {
        assert((s + 1) * (s + 1) <= r * r) by (nonlinear_arith)
            requires
                s + 1 <= r,
        ;
    }
}

pub proof fn lemma_sqrt_floor_monotone(n: nat, m: nat)
    requires
        n <= m,
    ensures
        sqrt_floor(n) <= sqrt_floor(m),
{
    lemma_sqrt_floor_bounds(n);
    lemma_sqrt_floor_bounds(m);
    let sn = sqrt_floor(n);
    let sm = sqrt_floor(m);
    if sm < sn {
        assert((sm + 1) * (sm + 1) <= sn * sn) by (nonlinear_arith)
            requires
                sm + 1 <= sn,
        ;
    }
}

/// Floors of fractions are ordered whenever the fractions are:
/// `p / q <= r / s` follows from `p * s <= r * q`.
pub proof fn lemma_div_frac_le(p: int, q: int, r: int, s: int)
    requires
        0 <= p,
        0 < q,
        0 <= r,
        0 < s,
        p * s <= r * q,
    ensures
        p / q <= r / s,
{
    let d = p / q;
    lemma_div_pos_is_pos(p, q);
    lemma_fundamental_div_mod(p, q);
    assert(d * q <= p);
    assert(d * s <= r) by (nonlinear_arith)
        requires
            d * q <= p,
            p * s <= r * q,
            0 < q,
            0 < s,
            0 <= d,
    ;
    lemma_div_multiples_vanish(d, s);
    lemma_div_is_ordered(d * s, r, s);
}

/// Scaling by a fraction bounded by one can only shrink:
/// `a * b / d <= a` when `b <= d`.
pub proof fn lemma_mul_div_le(a: int, b: int, d: int)
    requires
        0 <= a,
        0 <= b,
        0 < d,
        b <= d,
    ensures
        a * b / d <= a,
{
    assert(a * b <= a * d) by (nonlinear_arith)
        requires
            0 <= a,
            b <= d,
    ;
    lemma_div_is_ordered(a * b, a * d, d);
    assert(a * d == d * a) by (nonlinear_arith);
    lemma_div_multiples_vanish(a, d);
}

/// A strict product bound carries through flooring division:
/// `n / d < c` when `n < d * c`.
pub proof fn lemma_div_below(n: int, d: int, c: int)
    requires
        0 <= n,
        0 < d,
        n < d * c,
    ensures
        n / d < c,
{
    lemma_fundamental_div_mod(n, d);
    lemma_div_pos_is_pos(n, d);
    assert(n / d < c) by (nonlinear_arith)
        requires
            d * (n / d) <= n,
            n < d * c,
            0 < d,
            0 <= n / d,
    ;
}

/// Floored division stays within a product bound: `n / d <= c` when `n <= d * c`.
pub proof fn lemma_div_at_most(n: int, d: int, c: int)
    requires
        0 <= n,
        0 < d,
        0 <= c,
        n <= d * c,
    ensures
        n / d <= c,
{
    lemma_div_is_ordered(n, d * c, d);
    assert(d * c == c * d) by (nonlinear_arith);
    lemma_div_multiples_vanish(c, d);
}

/// Flooring division under-approximates: `(n / d) * d <= n`.
pub proof fn lemma_div_mul_le(n: int, d: int)
    requires
        0 <= n,
        0 < d,
    ensures
        (n / d) * d <= n,
        0 <= n / d,
{
    lemma_fundamental_div_mod(n, d);
    vstd::arithmetic::div_mod::lemma_mod_bound(n, d);
    lemma_div_pos_is_pos(n, d);
    assert((n / d) * d == d * (n / d)) by (nonlinear_arith);
}

/// The product of two 64-bit values always fits in 128 bits.
pub proof fn lemma_u64_mul_fits(x: u64, y: u64)
    ensures
        0 <= (x as int) * (y as int) <= u128::MAX,
{
    assert(0 <= (x as int) * (y as int) <= u128::MAX) by (nonlinear_arith)
        requires
            x <= u64::MAX,
            y <= u64::MAX,
    ;
}

/// Binary search for the integer square root of a `u128` value.
pub fn isqrt_u128(n: u128) -> (r: u64)
    ensures
        r == sqrt_floor(n as nat),
{
    let mut lo: u128 = 0;
    let mut hi: u128 = 0x1_0000_0000_0000_0000;
    proof {
        assert((n as int) < (hi as int) * (hi as int)) by (nonlinear_arith)
            requires
                hi == 0x1_0000_0000_0000_0000u128,
                n <= u128::MAX,
        ;
    }
    while lo + 1 < hi
        invariant
            lo < hi <= 0x1_0000_0000_0000_0000u128,
            (lo as int) * (lo as int) <= n as int,
            (n as int) < (hi as int) * (hi as int),
        decreases hi - lo,
    {
        let mid: u128 = lo + (hi - lo) / 2;
        proof {
            assert(lo < mid < hi);
            assert((mid as int) * (mid as int) <= u128::MAX) by (nonlinear_arith)
                requires
                    mid <= 0xffff_ffff_ffff_ffffu128,
            ;
        }
        if mid * mid <= n {
            lo = mid;
        } else {
            hi = mid;
        }
    }
    proof {
        assert(hi == lo + 1);
        lemma_sqrt_floor_unique(n as nat, lo as nat);
    }
    lo as u64
}

} // verus!
