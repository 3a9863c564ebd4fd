//! Fixed-point scalars.
//!
//! A [`Fx`] carries a signed 128-bit raw integer; the number it denotes is
//! `raw / FX_SCALE`. Sums and differences are exact; products and quotients
//! round toward zero, exactly as the specification functions [`fxmul`] and
//! [`fxdiv`] say. The square root rounds down ([`fxsqrt`]).

use vstd::arithmetic::div_mod::{
    lemma_div_is_ordered, lemma_div_nonincreasing, lemma_div_pos_is_pos,
};
use vstd::prelude::*;

verus! {

/// Raw units per whole unit: 2^36.
pub const FX_SCALE: i128 = 68719476736;

/// Largest magnitude a product of two raw values may take: 2^126.
pub const FX_PROD_LIM: i128 = 85070591730234615865843651857942052864;

/// Largest raw magnitude accepted by [`Fx::sqrt`]: 2^91.
pub const FX_SQRT_LIM: i128 = 2475880078570760549798248448;

/// Truncating division (toward zero) by a positive divisor, the rounding of
/// Rust's `/` on signed integers, written over the Euclidean `/` of
/// specifications.
pub open spec fn tdiv(a: int, b: int) -> int
    recommends
        b > 0,
{
    if a >= 0 {
        a / b
    } else {
        -((-a) / b)
    }
}

/// The raw value of the product of two fixed-point numbers.
pub open spec fn fxmul(a: int, b: int) -> int {
    tdiv(a * b, FX_SCALE as int)
}

/// The raw value of the quotient of two fixed-point numbers: truncating
/// division of `a * FX_SCALE` by `b`, for either sign of `b`.
pub open spec fn fxdiv(a: int, b: int) -> int
    recommends
        b != 0,
{
    if b >= 0 {
        tdiv(a * FX_SCALE, b)
    } else {
        -tdiv(a * FX_SCALE, -b)
    }
}

/// `r` is the integer square root of `n`, rounded down.
pub open spec fn is_isqrt(n: int, r: int) -> bool {
    &&& 0 <= r
    &&& r * r <= n
    &&& n < (r + 1) * (r + 1)
}

/// The integer square root of `n`, rounded down.
pub open spec fn isqrt_of(n: int) -> int {
    choose|r: int| is_isqrt(n, r)
}

/// The raw value of the square root of a fixed-point number.
pub open spec fn fxsqrt(a: int) -> int {
    isqrt_of(a * FX_SCALE)
}

/// Every nonnegative integer has an integer square root.
pub proof fn lemma_isqrt_exists(n: int)
    requires
        n >= 0,
    ensures
        is_isqrt(n, isqrt_of(n)),
    decreases n,
{
    if n == 0 {
        assert(is_isqrt(0, 0));
    } else {
        lemma_isqrt_exists(n - 1);
        let r = isqrt_of(n - 1);
        if (r + 1) * (r + 1) <= n {
            assert(n - 1 < (r + 1) * (r + 1));
            assert(is_isqrt(n, r + 1)) by (nonlinear_arith)
                requires
                    r >= 0,
                    (r + 1) * (r + 1) <= n,
                    n - 1 < (r + 1) * (r + 1),
            ;
        } else {
            assert(is_isqrt(n, r));
        }
    }
    let w = choose|r: int| is_isqrt(n, r);
    assert(is_isqrt(n, w));
}

/// The integer square root is unique.
pub proof fn lemma_isqrt_unique(n: int, r1: int, r2: int)
    requires
        is_isqrt(n, r1),
        is_isqrt(n, r2),
    ensures
        r1 == r2,
{
    if r1 < r2 {
        assert((r1 + 1) * (r1 + 1) <= r2 * r2) by (nonlinear_arith)
            requires
                0 <= r1,
                r1 < r2,
        ;
    }
    if r2 < r1 {
        assert((r2 + 1) * (r2 + 1) <= r1 * r1) by (nonlinear_arith)
            requires
                0 <= r2,
                r2 < r1,
        ;
    }
}

/// Truncating division never grows the magnitude of the dividend, and a bound
/// on the dividend carries to a bound on the quotient.
pub proof fn lemma_tdiv_bound(a: int, b: int, lim: int)
    requires
        b >= 1,
        -lim <= a <= lim,
        0 <= lim,
    ensures
        -(lim / b) <= tdiv(a, b) <= lim / b,
        -lim <= tdiv(a, b) <= lim,
        lim / b <= lim,
{
    lemma_div_pos_is_pos(lim, b);
    if a >= 0 {
        lemma_div_is_ordered(a, lim, b);
        lemma_div_pos_is_pos(a, b);
    } else {
        lemma_div_is_ordered(-a, lim, b);
        lemma_div_pos_is_pos(-a, b);
    }
    lemma_div_nonincreasing(lim, b);
}

/// The quotient of the two range constants, in closed form.
pub proof fn lemma_prod_lim_div_scale()
    ensures
        (FX_PROD_LIM as int) / (FX_SCALE as int) == 1237940039285380274899124224,
{
    vstd::arithmetic::div_mod::lemma_div_by_multiple(1237940039285380274899124224, FX_SCALE as int);
    assert(1237940039285380274899124224 * (FX_SCALE as int) == FX_PROD_LIM as int)
        by (nonlinear_arith);
}

/// Dividing a multiple of the scale by the scale is exact.
pub proof fn lemma_tdiv_exact(a: int)
    ensures
        tdiv(a * FX_SCALE, FX_SCALE as int) == a,
{
    let s = FX_SCALE as int;
    if a >= 0 {
        vstd::arithmetic::div_mod::lemma_div_by_multiple(a, s);
    } else {
        vstd::arithmetic::div_mod::lemma_div_by_multiple(-a, s);
        assert(-(a * s) == (-a) * s) by (nonlinear_arith);
    }
}

/// A rounded product of nonnegative factors grows with its factors.
pub proof fn lemma_fxmul_mono(a: int, b: int, a0: int, b0: int)
    requires
        0 <= a0 <= a,
        0 <= b0 <= b,
    ensures
        fxmul(a, b) >= fxmul(a0, b0),
        fxmul(a0, b0) >= 0,
{
    assert(0 <= a0 * b0 <= a * b) by (nonlinear_arith)
        requires
            0 <= a0 <= a,
            0 <= b0 <= b,
    ;
    lemma_div_is_ordered(a0 * b0, a * b, FX_SCALE as int);
    lemma_div_pos_is_pos(a0 * b0, FX_SCALE as int);
}

/// A product of nonnegative factors never rounds below zero.
pub proof fn lemma_fxmul_nonneg(a: int, b: int)
    requires
        0 <= a,
        0 <= b,
    ensures
        fxmul(a, b) >= 0,
{
    assert(a * b >= 0) by (nonlinear_arith)
        requires
            0 <= a,
            0 <= b,
    ;
    lemma_div_pos_is_pos(a * b, FX_SCALE as int);
}

/// A magnitude bound on each factor gives one on the rounded product.
pub proof fn lemma_fxmul_bound(a: int, b: int, la: int, lb: int)
    requires
        -la <= a <= la,
        -lb <= b <= lb,
        0 <= la,
        0 <= lb,
    ensures
        -(la * lb) <= a * b <= la * lb,
        -((la * lb) / (FX_SCALE as int)) <= fxmul(a, b) <= (la * lb) / (FX_SCALE as int),
{
    assert(-(la * lb) <= a * b <= la * lb) by (nonlinear_arith)
        requires
            -la <= a <= la,
            -lb <= b <= lb,
            0 <= la,
            0 <= lb,
    ;
    assert(la * lb >= 0) by (nonlinear_arith)
        requires
            0 <= la,
            0 <= lb,
    ;
    lemma_tdiv_bound(a * b, FX_SCALE as int, la * lb);
}

/// Integer square root of a 128-bit value, rounded down, by bisection.
fn isqrt_u128(n: u128) -> (r: u128)
    ensures
        is_isqrt(n as int, r as int),
        r < 0x10000000000000000,
{
    let mut lo: u128 = 0;
    let mut hi: u128 = 0x10000000000000000;
    proof {
        assert((0x10000000000000000 as int) * (0x10000000000000000 as int) > u128::MAX as int);
    }
    while lo + 1 < hi
        invariant
            lo < hi <= 0x10000000000000000,
            (lo as int) * (lo as int) <= n as int,
            (n as int) < (hi as int) * (hi as int),
        decreases hi - lo,
    {
        let mid: u128 = lo + (hi - lo) / 2;
        proof {
            assert((mid as int) * (mid as int) < (0x10000000000000000 as int) * (
            0x10000000000000000 as int)) by (nonlinear_arith)
                requires
                    0 <= mid < 0x10000000000000000 as int,
            ;
        }
        if mid * mid <= n {
            lo = mid;
        } else {
            hi = mid;
        }
    }
    lo
}

/// A fixed-point number: the value `raw / FX_SCALE`.
#[derive(Clone, Copy, Debug, PartialEq, Eq, Structural)]
pub struct Fx {
    pub raw: i128,
}

impl Fx {
    /// The number holding the given raw units.
    pub fn from_raw(raw: i128) -> (r: Fx)
        ensures
            r.raw == raw,
    {
        Fx { raw }
    }

    /// Zero.
    pub fn zero() -> (r: Fx)
        ensures
            r.raw == 0,
    {
        Fx { raw: 0 }
    }

    /// One.
    pub fn one() -> (r: Fx)
        ensures
            r.raw == FX_SCALE,
    {
        Fx { raw: FX_SCALE }
    }

    /// The whole number `n`.
    pub fn from_int(n: i64) -> (r: Fx)
        ensures
            r.raw == n * FX_SCALE,
    {
        Fx { raw: (n as i128) * FX_SCALE }
    }

    /// The number closest to `num / den`, rounded toward zero.
    pub fn from_ratio(num: i64, den: i64) -> (r: Fx)
        requires
            den > 0,
        ensures
            r.raw == tdiv(num * FX_SCALE, den as int),
    {
        proof {
            lemma_tdiv_bound(num * FX_SCALE, den as int, FX_PROD_LIM as int);
        }
        Fx { raw: (num as i128) * FX_SCALE / (den as i128) }
    }

    /// Exact sum.
    pub fn add(self, rhs: Fx) -> (r: Fx)
        requires
            -FX_PROD_LIM <= self.raw + rhs.raw <= FX_PROD_LIM,
        ensures
            r.raw == self.raw + rhs.raw,
    {
        Fx { raw: self.raw + rhs.raw }
    }

    /// Exact difference.
    pub fn sub(self, rhs: Fx) -> (r: Fx)
        requires
            -FX_PROD_LIM <= self.raw - rhs.raw <= FX_PROD_LIM,
        ensures
            r.raw == self.raw - rhs.raw,
    {
        Fx { raw: self.raw - rhs.raw }
    }

    /// Exact negation.
    pub fn neg(self) -> (r: Fx)
        requires
            -FX_PROD_LIM <= self.raw,
        ensures
            r.raw == -self.raw,
    {
        Fx { raw: -self.raw }
    }

    /// Product, rounded toward zero.
    pub fn mul(self, rhs: Fx) -> (r: Fx)
        requires
            -FX_PROD_LIM <= self.raw * rhs.raw <= FX_PROD_LIM,
        ensures
            r.raw == fxmul(self.raw as int, rhs.raw as int),
    {
        proof {
            lemma_tdiv_bound(self.raw * rhs.raw, FX_SCALE as int, FX_PROD_LIM as int);
        }
        Fx { raw: (self.raw * rhs.raw) / FX_SCALE }
    }

    /// Square root, rounded down at the raw scale.
    pub fn sqrt(self) -> (r: Fx)
        requires
            0 <= self.raw <= FX_SQRT_LIM,
        ensures
            r.raw == fxsqrt(self.raw as int),
            is_isqrt(self.raw * FX_SCALE, r.raw as int),
            0 <= r.raw < 0x10000000000000000,
    {
        let n: u128 = (self.raw as u128) * (FX_SCALE as u128);
        let s: u128 = isqrt_u128(n);
        proof {
            lemma_isqrt_exists(self.raw * FX_SCALE);
            lemma_isqrt_unique(self.raw * FX_SCALE, s as int, isqrt_of(self.raw * FX_SCALE));
        }
        Fx { raw: s as i128 }
    }

    /// Quotient, rounded toward zero.
    pub fn div(self, rhs: Fx) -> (r: Fx)
        requires
            rhs.raw != 0,
            -FX_PROD_LIM <= rhs.raw,
            -FX_PROD_LIM <= self.raw * FX_SCALE <= FX_PROD_LIM,
        ensures
            r.raw == fxdiv(self.raw as int, rhs.raw as int),
    {
        let num: i128 = self.raw * FX_SCALE;
        if rhs.raw > 0 {
            proof {
                lemma_tdiv_bound(num as int, rhs.raw as int, FX_PROD_LIM as int);
            }
            Fx { raw: num / rhs.raw }
        } else {
            proof {
                lemma_tdiv_bound(num as int, -(rhs.raw as int), FX_PROD_LIM as int);
            }
            Fx { raw: -(num / -rhs.raw) }
        }
    }
}

} // verus!
