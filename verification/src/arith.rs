//! Integer notions that the fixed-point numbers are defined by: saturation,
//! the quotient that rounds toward zero, and the integer square root.

use vstd::prelude::*;

verus! {

/// The scaling factor between a number and its raw value, `2^32`.
pub open spec fn scale() -> int {
    0x1_0000_0000
}

/// The largest raw value, `2^63 - 1`; the smallest one is its negation.
pub open spec fn max_raw() -> int {
    0x7fff_ffff_ffff_ffff
}

/// Clamps an integer into the symmetric range `[-max_raw(), max_raw()]`.
pub open spec fn saturate(v: int) -> int {
    if v > max_raw() {
        max_raw()
    } else if v < -max_raw() {
        -max_raw()
    } else {
        v
    }
}

/// Absolute value of an integer.
pub open spec fn magnitude(v: int) -> int {
    if v < 0 {
        -v
    } else {
        v
    }
}

/// Quotient of `n` by a nonzero `d`, rounded toward zero.
pub open spec fn quot(n: int, d: int) -> int
    recommends
        d != 0,
{
    if (n >= 0) == (d > 0) {
        magnitude(n) / magnitude(d)
    } else {
        -(magnitude(n) / magnitude(d))
    }
}

/// `r` is the integer square root of `n`: the largest natural number whose
/// square does not exceed `n`.
pub open spec fn is_isqrt(n: int, r: int) -> bool {
    0 <= r && r * r <= n < (r + 1) * (r + 1)
}

/// The integer square root of a natural number `n`.
pub open spec fn isqrt(n: int) -> int
    recommends
        n >= 0,
{
    choose|r: int| is_isqrt(n, r)
}

/// Squaring is monotone on the natural numbers.
pub proof fn lemma_square_monotone(a: int, b: int)
    requires
        0 <= a <= b,
    ensures
        a * a <= b * b,
{
    assert(a * a <= b * b) by (nonlinear_arith)
        requires
            0 <= a <= b,
    ;
}

/// A number has at most one integer square root.
pub proof fn lemma_isqrt_unique(n: int, r1: int, r2: int)
    requires
        is_isqrt(n, r1),
        is_isqrt(n, r2),
    ensures
        r1 == r2,
{
    if r1 < r2 {
        lemma_square_monotone(r1 + 1, r2);
    } else if r2 < r1 {
        lemma_square_monotone(r2 + 1, r1);
    }
}

/// Every natural number has an integer square root, and `isqrt` names it.
pub proof fn lemma_isqrt_exists(n: int)
    requires
        n >= 0,
    ensures
        is_isqrt(n, isqrt(n)),
    decreases n,
{
    if n == 0 {
        assert(is_isqrt(0, 0));
    } else {
        lemma_isqrt_exists(n - 1);
        let r = isqrt(n - 1);
        if (r + 1) * (r + 1) <= n {
            assert((r + 2) * (r + 2) == (r + 1) * (r + 1) + 2 * r + 3) by (nonlinear_arith);
            assert(is_isqrt(n, r + 1));
        } else {
            assert(is_isqrt(n, r));
        }
    }
}

/// Whatever satisfies the defining inequalities is the integer square root.
pub proof fn lemma_isqrt_is(n: int, r: int)
    requires
        is_isqrt(n, r),
    ensures
        isqrt(n) == r,
{
    lemma_isqrt_unique(n, r, isqrt(n));
}

/// The integer square root is monotone.
pub proof fn lemma_isqrt_monotone(a: int, b: int)
    requires
        0 <= a <= b,
    ensures
        isqrt(a) <= isqrt(b),
{
    lemma_isqrt_exists(a);
    lemma_isqrt_exists(b);
    if isqrt(b) < isqrt(a) {
        lemma_square_monotone(isqrt(b) + 1, isqrt(a));
    }
}

/// Negating the dividend negates the quotient: rounding is toward zero.
pub proof fn lemma_quot_neg(n: int, d: int)
    requires
        d > 0,
    ensures
        quot(-n, d) == -quot(n, d),
{
    if n == 0 {
        assert(0int / d == 0) by (nonlinear_arith)
            requires
                d > 0,
        ;
    }
}

/// The quotient by a positive divisor is monotone in the dividend.
pub proof fn lemma_quot_monotone(n1: int, n2: int, d: int)
    requires
        d > 0,
        n1 <= n2,
    ensures
        quot(n1, d) <= quot(n2, d),
{
    if n1 >= 0 {
        vstd::arithmetic::div_mod::lemma_div_is_ordered(n1, n2, d);
    } else if n2 < 0 {
        vstd::arithmetic::div_mod::lemma_div_is_ordered(-n2, -n1, d);
    } else {
        vstd::arithmetic::div_mod::lemma_div_pos_is_pos(-n1, d);
        vstd::arithmetic::div_mod::lemma_div_pos_is_pos(n2, d);
    }
}

/// The quotient times the divisor differs from the dividend by less than
/// the divisor.
pub proof fn lemma_quot_bounds(n: int, d: int)
    requires
        d > 0,
    ensures
        n - d < d * quot(n, d) < n + d,
{
    let a = magnitude(n);
    vstd::arithmetic::div_mod::lemma_fundamental_div_mod(a, d);
    vstd::arithmetic::div_mod::lemma_mod_pos_bound(a, d);
    assert(d * (-(a / d)) == -(d * (a / d))) by (nonlinear_arith);
}

/// The quotient of a natural number by a positive divisor is a natural number.
pub proof fn lemma_quot_nonneg(n: int, d: int)
    requires
        d > 0,
        n >= 0,
    ensures
        quot(n, d) >= 0,
{
    vstd::arithmetic::div_mod::lemma_div_pos_is_pos(n, d);
}

/// The product of two raw values is bounded by the square of the largest.
pub proof fn lemma_product_bound(a: int, b: int)
    requires
        -max_raw() <= a <= max_raw(),
        -max_raw() <= b <= max_raw(),
    ensures
        -(max_raw() * max_raw()) <= a * b <= max_raw() * max_raw(),
        a == b ==> 0 <= a * b,
{
    assert(-(max_raw() * max_raw()) <= a * b <= max_raw() * max_raw()) by (nonlinear_arith)
        requires
            -max_raw() <= a <= max_raw(),
            -max_raw() <= b <= max_raw(),
    ;
    assert(a * a >= 0) by (nonlinear_arith);
}

/// Computes the integer square root by bisection.
pub fn isqrt_u128(n: u128) -> (r: u64)
    ensures
        r == isqrt(n as int),
{
    let mut lo: u128 = 0;
    let mut hi: u128 = 0x1_0000_0000_0000_0000;
    assert(0x1_0000_0000_0000_0000int * 0x1_0000_0000_0000_0000int > u128::MAX);
    while hi - lo > 1
        invariant
            lo < hi <= 0x1_0000_0000_0000_0000,
            lo * lo <= n,
            n < hi * hi,
        decreases hi - lo,
    {
        let mid: u128 = lo + (hi - lo) / 2;
        assert(mid * mid <= 0xffff_ffff_ffff_ffff * 0xffff_ffff_ffff_ffff) by (nonlinear_arith)
            requires
                0 <= mid <= 0xffff_ffff_ffff_ffff,
        ;
        if mid * mid <= n {
            lo = mid;
        } else {
            hi = mid;
        }
    }
    proof {
        lemma_isqrt_is(n as int, lo as int);
    }
    lo as u64
}

} // verus!
