//! Saturating signed fixed-point numbers with 32 fractional bits.
//!
//! A [`Fixed`] with view `v` stands for the rational number `v / 2^32`. The
//! representable numbers are those with `|v| <= 2^63 - 1`; every operation
//! computes the exact result, rounds it toward zero and clamps it into that
//! range, so that no operation can fail. Division by zero saturates in the
//! direction of the dividend's sign, and the square root of a negative
//! number is zero.

use vstd::prelude::*;
use crate::arith::{
    isqrt, isqrt_u128, lemma_isqrt_exists, lemma_product_bound, lemma_quot_monotone,
    lemma_quot_neg, lemma_quot_nonneg, lemma_square_monotone, magnitude, max_raw, quot, saturate,
    scale,
};

verus! {

/// Raw pattern of the number one.
pub const ONE_RAW: i64 = 0x1_0000_0000;

/// Raw pattern of the largest number.
pub const MAX_RAW: i64 = 0x7fff_ffff_ffff_ffff;

/// A fixed-point number with 32 fractional bits.
#[derive(Clone, Copy, Debug)]
pub struct Fixed {
    pub raw: i64,
}

impl View for Fixed {
    type V = int;

    /// The raw value. The one pattern below `-max_raw()` is read as
    /// `-max_raw()`, so that the range is symmetric.
    open spec fn view(&self) -> int {
        saturate(self.raw as int)
    }
}

impl Fixed {
    /// The number whose raw value is `v` clamped into range.
    pub open spec fn of(v: int) -> Fixed {
        Fixed { raw: saturate(v) as i64 }
    }

    /// Sum, saturated.
    #[verifier::opaque]
    pub open spec fn spec_add(self, rhs: Fixed) -> Fixed {
        Fixed::of(self@ + rhs@)
    }

    /// Difference, saturated.
    #[verifier::opaque]
    pub open spec fn spec_sub(self, rhs: Fixed) -> Fixed {
        Fixed::of(self@ - rhs@)
    }

    /// Negation; exact, because the range is symmetric.
    #[verifier::opaque]
    pub open spec fn spec_neg(self) -> Fixed {
        Fixed::of(-self@)
    }

    /// Absolute value.
    #[verifier::opaque]
    pub open spec fn spec_abs(self) -> Fixed {
        Fixed::of(magnitude(self@))
    }

    /// Product, rounded toward zero and saturated.
    #[verifier::opaque]
    pub open spec fn spec_mul(self, rhs: Fixed) -> Fixed {
        Fixed::of(quot(self@ * rhs@, scale()))
    }

    /// Quotient, rounded toward zero and saturated. A quotient by zero is the
    /// extreme number with the sign of the dividend, and zero for `0 / 0`.
    #[verifier::opaque]
    pub open spec fn spec_div(self, rhs: Fixed) -> Fixed {
        if rhs@ != 0 {
            Fixed::of(quot(self@ * scale(), rhs@))
        } else if self@ > 0 {
            Fixed::of(max_raw())
        } else if self@ < 0 {
            Fixed::of(-max_raw())
        } else {
            Fixed::of(0)
        }
    }

    /// Square root, rounded down; zero for a negative number.
    #[verifier::opaque]
    pub open spec fn spec_sqrt(self) -> Fixed {
        if self@ <= 0 {
            Fixed::of(0)
        } else {
            Fixed::of(isqrt(self@ * scale()))
        }
    }

    /// The number, moved into the interval from `min` to `max` if it lies
    /// outside.
    pub open spec fn spec_clamp(self, min: Fixed, max: Fixed) -> Fixed {
        if self@ < min@ {
            min
        } else if self@ > max@ {
            max
        } else {
            self
        }
    }

    /// The whole part of the number: the number rounded toward zero.
    pub open spec fn spec_trunc(self) -> int {
        quot(self@, scale())
    }

    /// The number with the given raw pattern.
    pub fn from_raw(raw: i64) -> (res: Fixed)
        ensures
            res == Fixed::of(raw as int),
    {
        if raw == i64::MIN {
            Fixed { raw: -MAX_RAW }
        } else {
            Fixed { raw }
        }
    }

    /// The whole number `n`, saturated.
    pub fn from_int(n: i64) -> (res: Fixed)
        ensures
            res == Fixed::of(n * scale()),
    {
        assert(n * scale() == n * 0x1_0000_0000);
        Fixed::saturated((n as i128) * 0x1_0000_0000)
    }

    /// The whole number `n`, saturated.
    pub fn from_count(n: u64) -> (res: Fixed)
        ensures
            res == Fixed::of(n * scale()),
    {
        assert(n * scale() == n * 0x1_0000_0000);
        Fixed::saturated((n as i128) * 0x1_0000_0000)
    }

    /// The raw value of this number, in `[-MAX_RAW, MAX_RAW]`.
    pub fn to_raw(self) -> (res: i64)
        ensures
            res == self@,
    {
        if self.raw == i64::MIN {
            -MAX_RAW
        } else {
            self.raw
        }
    }

    /// Clamps a wide intermediate result into range.
    fn saturated(v: i128) -> (res: Fixed)
        ensures
            res == Fixed::of(v as int),
    {
        if v > MAX_RAW as i128 {
            Fixed { raw: MAX_RAW }
        } else if v < -(MAX_RAW as i128) {
            Fixed { raw: -MAX_RAW }
        } else {
            Fixed { raw: v as i64 }
        }
    }

    /// The sum, saturated.
    pub fn add(self, rhs: Fixed) -> (res: Fixed)
        ensures
            res == self.spec_add(rhs),
    {
        proof {
            reveal(Fixed::spec_add);
        }
        Fixed::saturated(self.to_raw() as i128 + rhs.to_raw() as i128)
    }

    /// The difference, saturated.
    pub fn sub(self, rhs: Fixed) -> (res: Fixed)
        ensures
            res == self.spec_sub(rhs),
    {
        proof {
            reveal(Fixed::spec_sub);
        }
        Fixed::saturated(self.to_raw() as i128 - rhs.to_raw() as i128)
    }

    /// The number with the opposite sign.
    pub fn neg(self) -> (res: Fixed)
        ensures
            res == self.spec_neg(),
    {
        proof {
            reveal(Fixed::spec_neg);
        }
        Fixed { raw: -self.to_raw() }
    }

    /// The absolute value.
    pub fn abs(self) -> (res: Fixed)
        ensures
            res == self.spec_abs(),
    {
        proof {
            reveal(Fixed::spec_abs);
        }
        let a: i64 = self.to_raw();
        if a < 0 {
            Fixed { raw: -a }
        } else {
            Fixed { raw: a }
        }
    }

    /// The product, rounded toward zero and saturated.
    pub fn mul(self, rhs: Fixed) -> (res: Fixed)
        ensures
            res == self.spec_mul(rhs),
    {
        proof {
            reveal(Fixed::spec_mul);
        }
        let a: i128 = self.to_raw() as i128;
        let b: i128 = rhs.to_raw() as i128;
        proof {
            lemma_product_bound(a as int, b as int);
        }
        let p: i128 = a * b;
        let q: i128 = if p >= 0 {
            p / 0x1_0000_0000
        } else {
            -((-p) / 0x1_0000_0000)
        };
        Fixed::saturated(q)
    }

    /// The quotient, rounded toward zero and saturated; for a divisor of zero,
    /// the extreme number with the sign of the dividend, and zero for `0 / 0`.
    pub fn div(self, rhs: Fixed) -> (res: Fixed)
        ensures
            res == self.spec_div(rhs),
    {
        proof {
            reveal(Fixed::spec_div);
        }
        let a: i64 = self.to_raw();
        let b: i64 = rhs.to_raw();
        if b != 0 {
            let n: i128 = (a as i128) * 0x1_0000_0000;
            let n_abs: i128 = if n >= 0 { n } else { -n };
            let b_abs: i128 = if b >= 0 { b as i128 } else { -(b as i128) };
            assert(0 <= n_abs / b_abs <= n_abs) by (nonlinear_arith)
                requires
                    0 <= n_abs,
                    1 <= b_abs,
            ;
            let q_abs: i128 = n_abs / b_abs;
            let q: i128 = if (n >= 0) == (b > 0) { q_abs } else { -q_abs };
            Fixed::saturated(q)
        } else if a > 0 {
            Fixed { raw: MAX_RAW }
        } else if a < 0 {
            Fixed { raw: -MAX_RAW }
        } else {
            Fixed { raw: 0 }
        }
    }

    /// The square root, rounded down; zero for a negative number.
    pub fn sqrt(self) -> (res: Fixed)
        ensures
            res == self.spec_sqrt(),
    {
        proof {
            reveal(Fixed::spec_sqrt);
        }
        let a: i64 = self.to_raw();
        if a <= 0 {
            Fixed { raw: 0 }
        } else {
            let n: u128 = (a as u128) * 0x1_0000_0000;
            let r: u64 = isqrt_u128(n);
            proof {
                lemma_isqrt_exists(n as int);
                if r >= 0x1_0000_0000_0000 {
                    lemma_square_monotone(0x1_0000_0000_0000, r as int);
                }
            }
            Fixed { raw: r as i64 }
        }
    }

    /// The number moved into the interval from `min` to `max`.
    pub fn clamp(self, min: Fixed, max: Fixed) -> (res: Fixed)
        requires
            min@ <= max@,
        ensures
            res == self.spec_clamp(min, max),
    {
        if self.lt(min) {
            min
        } else if self.gt(max) {
            max
        } else {
            self
        }
    }

    /// The whole part of the number.
    pub fn trunc(self) -> (res: i64)
        ensures
            res == self.spec_trunc(),
    {
        let a: i64 = self.to_raw();
        if a >= 0 {
            a / ONE_RAW
        } else {
            -((-a) / ONE_RAW)
        }
    }

    /// Whether this number is zero.
    pub fn is_zero(self) -> (res: bool)
        ensures
            res == (self@ == 0),
    {
        self.raw == 0
    }

    /// Whether this number is less than `rhs`.
    pub fn lt(self, rhs: Fixed) -> (res: bool)
        ensures
            res == (self@ < rhs@),
    {
        self.to_raw() < rhs.to_raw()
    }

    /// Whether this number is at most `rhs`.
    pub fn le(self, rhs: Fixed) -> (res: bool)
        ensures
            res == (self@ <= rhs@),
    {
        self.to_raw() <= rhs.to_raw()
    }

    /// Whether this number is greater than `rhs`.
    pub fn gt(self, rhs: Fixed) -> (res: bool)
        ensures
            res == (self@ > rhs@),
    {
        self.to_raw() > rhs.to_raw()
    }

    /// Whether this number is at least `rhs`.
    pub fn ge(self, rhs: Fixed) -> (res: bool)
        ensures
            res == (self@ >= rhs@),
    {
        self.to_raw() >= rhs.to_raw()
    }
}

/// A product with a negated factor is the negated product.
pub proof fn lemma_mul_neg(a: Fixed, b: Fixed)
    ensures
        a.spec_mul(b.spec_neg()) == a.spec_mul(b).spec_neg(),
        a.spec_neg().spec_mul(b) == a.spec_mul(b).spec_neg(),
{
    reveal(Fixed::spec_mul);
    reveal(Fixed::spec_neg);
    assert(a@ * (-b@) == -(a@ * b@)) by (nonlinear_arith);
    assert((-a@) * b@ == -(a@ * b@)) by (nonlinear_arith);
    lemma_quot_neg(a@ * b@, scale());
}

/// A sum of negated terms is the negated sum.
pub proof fn lemma_add_neg(a: Fixed, b: Fixed)
    ensures
        a.spec_neg().spec_add(b.spec_neg()) == a.spec_add(b).spec_neg(),
{
    reveal(Fixed::spec_add);
    reveal(Fixed::spec_neg);
}

/// Negation changes the sign of the raw value.
pub proof fn lemma_neg_view(a: Fixed)
    ensures
        a.spec_neg()@ == -a@,
{
    reveal(Fixed::spec_neg);
}

/// A sum of numbers that are not negative is not negative.
pub proof fn lemma_add_nonneg(a: Fixed, b: Fixed)
    requires
        a@ >= 0,
        b@ >= 0,
    ensures
        a.spec_add(b)@ >= 0,
{
    reveal(Fixed::spec_add);
}

/// A square root is never negative.
pub proof fn lemma_sqrt_nonneg(a: Fixed)
    ensures
        a.spec_sqrt()@ >= 0,
{
    reveal(Fixed::spec_sqrt);
    if a@ > 0 {
        lemma_isqrt_exists(a@ * scale());
    }
}

/// Taking a number that is not negative away gives no more than adding it.
pub proof fn lemma_sub_le_add(a: Fixed, b: Fixed)
    requires
        b@ >= 0,
    ensures
        a.spec_sub(b)@ <= a.spec_add(b)@,
{
    reveal(Fixed::spec_add);
    reveal(Fixed::spec_sub);
}

/// A square is never negative.
pub proof fn lemma_square_nonneg(a: Fixed)
    ensures
        a.spec_mul(a)@ >= 0,
{
    reveal(Fixed::spec_mul);
    assert(a@ * a@ >= 0) by (nonlinear_arith);
    lemma_quot_nonneg(a@ * a@, scale());
}

/// Division by a number that is not negative is monotone in the dividend.
pub proof fn lemma_div_monotone(a: Fixed, b: Fixed, d: Fixed)
    requires
        a@ <= b@,
        d@ >= 0,
    ensures
        a.spec_div(d)@ <= b.spec_div(d)@,
{
    reveal(Fixed::spec_div);
    if d@ > 0 {
        assert(a@ * scale() <= b@ * scale());
        lemma_quot_monotone(a@ * scale(), b@ * scale(), d@);
    }
}

} // verus!
