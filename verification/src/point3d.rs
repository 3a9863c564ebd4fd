//! 3D points and vectors over fixed-point scalars.

use crate::fx::{
    fxdiv, fxmul, fxsqrt, is_isqrt, lemma_fxmul_bound, lemma_tdiv_bound, tdiv, Fx, FX_PROD_LIM,
    FX_SCALE,
};
use vstd::arithmetic::div_mod::{
    lemma_div_by_multiple, lemma_div_pos_is_pos, lemma_fundamental_div_mod,
};
use vstd::prelude::*;

verus! {

/// Componentwise magnitude under which a vector counts as (numerically) zero.
pub const NEAR_EPS: i128 = 16;

/// The smallest squared length the unit-sphere sampler accepts: one
/// quarter of a unit, so that normalizing an accepted draw stays within
/// the engine's length tolerance.
pub const SAMPLE_FLOOR: i128 = 17179869184;

/// Largest componentwise magnitude accepted by vector sums and differences.
pub const PT_ADD_LIM: i128 = 42535295865117307932921825928971026432;

/// Largest componentwise magnitude accepted by `unit_vector`.
pub const PT_UNIT_LIM: i128 = 1152921504606846976;

/// A point or direction in space; three fixed-point components.
#[derive(Clone, Copy, Debug, PartialEq, Eq, Structural)]
pub struct Point3D {
    pub x: Fx,
    pub y: Fx,
    pub z: Fx,
}

/// The fixed-point dot product: the sum of the three rounded products.
pub open spec fn dot_spec(a: Point3D, b: Point3D) -> int {
    fxmul(a.x.raw as int, b.x.raw as int) + fxmul(a.y.raw as int, b.y.raw as int) + fxmul(
        a.z.raw as int,
        b.z.raw as int,
    )
}

/// The exact componentwise sum of two vectors.
pub open spec fn pt_sum(a: Point3D, b: Point3D) -> Point3D {
    Point3D {
        x: Fx { raw: (a.x.raw + b.x.raw) as i128 },
        y: Fx { raw: (a.y.raw + b.y.raw) as i128 },
        z: Fx { raw: (a.z.raw + b.z.raw) as i128 },
    }
}

/// The exact componentwise difference of two vectors.
pub open spec fn pt_diff(a: Point3D, b: Point3D) -> Point3D {
    Point3D {
        x: Fx { raw: (a.x.raw - b.x.raw) as i128 },
        y: Fx { raw: (a.y.raw - b.y.raw) as i128 },
        z: Fx { raw: (a.z.raw - b.z.raw) as i128 },
    }
}

/// A vector scaled componentwise by a raw factor, each product rounded.
pub open spec fn pt_scaled(a: Point3D, k: int) -> Point3D {
    Point3D {
        x: Fx { raw: fxmul(a.x.raw as int, k) as i128 },
        y: Fx { raw: fxmul(a.y.raw as int, k) as i128 },
        z: Fx { raw: fxmul(a.z.raw as int, k) as i128 },
    }
}

/// The componentwise product of two vectors, each product rounded.
pub open spec fn pt_mulc(a: Point3D, b: Point3D) -> Point3D {
    Point3D {
        x: Fx { raw: fxmul(a.x.raw as int, b.x.raw as int) as i128 },
        y: Fx { raw: fxmul(a.y.raw as int, b.y.raw as int) as i128 },
        z: Fx { raw: fxmul(a.z.raw as int, b.z.raw as int) as i128 },
    }
}

/// The exact componentwise negation of a vector.
pub open spec fn pt_neg(a: Point3D) -> Point3D {
    Point3D {
        x: Fx { raw: (-a.x.raw) as i128 },
        y: Fx { raw: (-a.y.raw) as i128 },
        z: Fx { raw: (-a.z.raw) as i128 },
    }
}

/// The cross product: each component the difference of two rounded
/// products.
pub open spec fn cross_spec(a: Point3D, b: Point3D) -> Point3D {
    Point3D {
        x: Fx {
            raw: (fxmul(a.y.raw as int, b.z.raw as int) - fxmul(
                a.z.raw as int,
                b.y.raw as int,
            )) as i128,
        },
        y: Fx {
            raw: (fxmul(a.z.raw as int, b.x.raw as int) - fxmul(
                a.x.raw as int,
                b.z.raw as int,
            )) as i128,
        },
        z: Fx {
            raw: (fxmul(a.x.raw as int, b.y.raw as int) - fxmul(
                a.y.raw as int,
                b.x.raw as int,
            )) as i128,
        },
    }
}

/// All components smaller in magnitude than `NEAR_EPS` raw units.
pub open spec fn near_zero_spec(p: Point3D) -> bool {
    &&& -NEAR_EPS < p.x.raw < NEAR_EPS
    &&& -NEAR_EPS < p.y.raw < NEAR_EPS
    &&& -NEAR_EPS < p.z.raw < NEAR_EPS
}

/// The vector scaled to unit length: each component divided by the
/// rounded-down square root of the squared length.
pub open spec fn unit_spec(v: Point3D) -> Point3D {
    let len = fxsqrt(dot_spec(v, v));
    Point3D {
        x: Fx { raw: fxdiv(v.x.raw as int, len) as i128 },
        y: Fx { raw: fxdiv(v.y.raw as int, len) as i128 },
        z: Fx { raw: fxdiv(v.z.raw as int, len) as i128 },
    }
}

/// Relies on rand::random: a value drawn from the thread-local generator.
/// Nothing is assumed of which value comes back.
pub assume_specification<T>[ rand::random::<T> ]() -> (r: T)
    where
        rand::distr::StandardUniform: rand::distr::Distribution<T>,
;

/// The dot product of vectors bounded by `la` and `lb` stays within
/// `3 * la * lb / FX_SCALE`, and each componentwise product fits the range
/// that `Fx::mul` accepts.
pub proof fn lemma_dot_in_range(a: Point3D, b: Point3D, la: int, lb: int)
    requires
        a.bounded(la),
        b.bounded(lb),
        0 <= la,
        0 <= lb,
        la * lb <= FX_PROD_LIM,
    ensures
        -FX_PROD_LIM <= a.x.raw * b.x.raw <= FX_PROD_LIM,
        -FX_PROD_LIM <= a.y.raw * b.y.raw <= FX_PROD_LIM,
        -FX_PROD_LIM <= a.z.raw * b.z.raw <= FX_PROD_LIM,
        -3 * ((la * lb) / (FX_SCALE as int)) <= dot_spec(a, b) <= 3 * ((la * lb) / (
        FX_SCALE as int)),
{
    lemma_fxmul_bound(a.x.raw as int, b.x.raw as int, la, lb);
    lemma_fxmul_bound(a.y.raw as int, b.y.raw as int, la, lb);
    lemma_fxmul_bound(a.z.raw as int, b.z.raw as int, la, lb);
}

/// Every cross-component product of two bounded vectors fits the range
/// that `Fx::mul` accepts, and each component of the cross product stays
/// within twice the rounded product bound.
pub proof fn lemma_cross_in_range(a: Point3D, b: Point3D, la: int, lb: int)
    requires
        a.bounded(la),
        b.bounded(lb),
        0 <= la,
        0 <= lb,
        la * lb <= FX_PROD_LIM,
    ensures
        -FX_PROD_LIM <= a.x.raw * b.y.raw <= FX_PROD_LIM,
        -FX_PROD_LIM <= a.x.raw * b.z.raw <= FX_PROD_LIM,
        -FX_PROD_LIM <= a.y.raw * b.x.raw <= FX_PROD_LIM,
        -FX_PROD_LIM <= a.y.raw * b.z.raw <= FX_PROD_LIM,
        -FX_PROD_LIM <= a.z.raw * b.x.raw <= FX_PROD_LIM,
        -FX_PROD_LIM <= a.z.raw * b.y.raw <= FX_PROD_LIM,
        cross_spec(a, b).bounded(2 * ((la * lb) / (FX_SCALE as int))),
{
    lemma_fxmul_bound(a.x.raw as int, b.y.raw as int, la, lb);
    lemma_fxmul_bound(a.x.raw as int, b.z.raw as int, la, lb);
    lemma_fxmul_bound(a.y.raw as int, b.x.raw as int, la, lb);
    lemma_fxmul_bound(a.y.raw as int, b.z.raw as int, la, lb);
    lemma_fxmul_bound(a.z.raw as int, b.x.raw as int, la, lb);
    lemma_fxmul_bound(a.z.raw as int, b.y.raw as int, la, lb);
}

/// A square never rounds to a negative value.
pub proof fn lemma_fxmul_self_nonneg(a: int)
    ensures
        fxmul(a, a) >= 0,
{
    assert(a * a >= 0) by (nonlinear_arith);
    lemma_div_pos_is_pos(a * a, FX_SCALE as int);
}

/// The rounded square loses less than one whole raw unit:
/// `fxmul(v, v) * FX_SCALE > v * v - FX_SCALE`.
proof fn lemma_fxmul_self_close(v: int)
    ensures
        fxmul(v, v) * FX_SCALE > v * v - FX_SCALE,
{
    let s = FX_SCALE as int;
    assert(v * v >= 0) by (nonlinear_arith);
    lemma_fundamental_div_mod(v * v, s);
    lemma_mod_bound_local(v * v, s);
    assert(fxmul(v, v) == (v * v) / s);
    assert(s * ((v * v) / s) == v * v - (v * v) % s);
    assert(fxmul(v, v) * s == s * ((v * v) / s)) by (nonlinear_arith)
        requires
            fxmul(v, v) == (v * v) / s,
    ;
}

proof fn lemma_mod_bound_local(a: int, m: int)
    requires
        m > 0,
        a >= 0,
    ensures
        0 <= a % m < m,
{
}

/// A component of a normalized vector stays within twice the unit scale.
proof fn lemma_unit_component_bound(v: int, ls: int, len: int)
    requires
        ls >= fxmul(v, v),
        1 <= ls,
        is_isqrt(ls * FX_SCALE, len),
    ensures
        len >= 1,
        -2 * FX_SCALE <= tdiv(v * FX_SCALE, len) <= 2 * FX_SCALE,
{
    let s = FX_SCALE as int;
    // The length is at least 2^18, the square root of one whole unit.
    assert(len >= 262144) by {
        assert(ls * s >= s) by (nonlinear_arith)
            requires
                ls >= 1,
                s == FX_SCALE as int,
        ;
        if len < 262144 {
            assert((len + 1) * (len + 1) <= 262144 * 262144) by (nonlinear_arith)
                requires
                    0 <= len < 262144,
            ;
        }
    }
    if -2 * len <= v <= 2 * len {
        lemma_tdiv_bound(v * s, len, 2 * len * s);
        assert(-(2 * len * s) <= v * s <= 2 * len * s) by (nonlinear_arith)
            requires
                -2 * len <= v <= 2 * len,
                s > 0,
        ;
        assert((2 * s * len) / len == 2 * s) by {
            lemma_div_by_multiple(2 * s, len);
        }
        assert(2 * len * s == 2 * s * len) by (nonlinear_arith);
    } else {
        // Impossible: the squared length would outgrow the square root's window.
        assert(v * v > 4 * (len * len)) by (nonlinear_arith)
            requires
                v < -2 * len || v > 2 * len,
                len >= 1,
        ;
        lemma_fxmul_self_close(v);
        assert(ls * s >= fxmul(v, v) * s) by (nonlinear_arith)
            requires
                ls >= fxmul(v, v),
                s > 0,
        ;
        assert(ls * s > v * v - s);
        assert((len + 1) * (len + 1) > 4 * (len * len) - s);
        assert(false) by (nonlinear_arith)
            requires
                (len + 1) * (len + 1) > 4 * (len * len) - s,
                len >= 262144,
                s == 68719476736,
        ;
    }
}

impl Point3D {
    /// Every component within `lim` raw units of zero.
    pub open spec fn bounded(self, lim: int) -> bool {
        &&& -lim <= self.x.raw <= lim
        &&& -lim <= self.y.raw <= lim
        &&& -lim <= self.z.raw <= lim
    }

    /// Whether every component lies within `lim` raw units of zero.
    pub fn check_bounded(&self, lim: i128) -> (r: bool)
        requires
            0 <= lim,
        ensures
            r == self.bounded(lim as int),
    {
        -lim <= self.x.raw && self.x.raw <= lim && -lim <= self.y.raw && self.y.raw <= lim && -lim
            <= self.z.raw && self.z.raw <= lim
    }

    pub fn new(x: Fx, y: Fx, z: Fx) -> (r: Point3D)
        ensures
            r == (Point3D { x, y, z }),
    {
        Point3D { x, y, z }
    }

    /// The origin.
    pub fn zero() -> (r: Point3D)
        ensures
            r.x.raw == 0 && r.y.raw == 0 && r.z.raw == 0,
    {
        Point3D { x: Fx::zero(), y: Fx::zero(), z: Fx::zero() }
    }

    pub fn x(&self) -> (r: Fx)
        ensures
            r == self.x,
    {
        self.x
    }

    pub fn y(&self) -> (r: Fx)
        ensures
            r == self.y,
    {
        self.y
    }

    pub fn z(&self) -> (r: Fx)
        ensures
            r == self.z,
    {
        self.z
    }

    pub fn set_x(&mut self, x: Fx)
        ensures
            *final(self) == (Point3D { x, ..*old(self) }),
    {
        self.x = x;
    }

    pub fn set_y(&mut self, y: Fx)
        ensures
            *final(self) == (Point3D { y, ..*old(self) }),
    {
        self.y = y;
    }

    pub fn set_z(&mut self, z: Fx)
        ensures
            *final(self) == (Point3D { z, ..*old(self) }),
    {
        self.z = z;
    }

    /// Exact componentwise sum.
    pub fn add(self, rhs: Point3D) -> (r: Point3D)
        requires
            self.bounded(PT_ADD_LIM as int),
            rhs.bounded(PT_ADD_LIM as int),
        ensures
            r.x.raw == self.x.raw + rhs.x.raw,
            r.y.raw == self.y.raw + rhs.y.raw,
            r.z.raw == self.z.raw + rhs.z.raw,
    {
        Point3D { x: self.x.add(rhs.x), y: self.y.add(rhs.y), z: self.z.add(rhs.z) }
    }

    /// Exact componentwise difference.
    pub fn sub(self, rhs: Point3D) -> (r: Point3D)
        requires
            self.bounded(PT_ADD_LIM as int),
            rhs.bounded(PT_ADD_LIM as int),
        ensures
            r.x.raw == self.x.raw - rhs.x.raw,
            r.y.raw == self.y.raw - rhs.y.raw,
            r.z.raw == self.z.raw - rhs.z.raw,
    {
        Point3D { x: self.x.sub(rhs.x), y: self.y.sub(rhs.y), z: self.z.sub(rhs.z) }
    }

    /// Exact componentwise negation.
    pub fn neg(self) -> (r: Point3D)
        requires
            self.bounded(PT_ADD_LIM as int),
        ensures
            r == pt_neg(self),
    {
        Point3D { x: self.x.neg(), y: self.y.neg(), z: self.z.neg() }
    }

    /// Componentwise product with a scalar, rounded toward zero.
    pub fn scale(self, k: Fx) -> (r: Point3D)
        requires
            -FX_PROD_LIM <= self.x.raw * k.raw <= FX_PROD_LIM,
            -FX_PROD_LIM <= self.y.raw * k.raw <= FX_PROD_LIM,
            -FX_PROD_LIM <= self.z.raw * k.raw <= FX_PROD_LIM,
        ensures
            r.x.raw == fxmul(self.x.raw as int, k.raw as int),
            r.y.raw == fxmul(self.y.raw as int, k.raw as int),
            r.z.raw == fxmul(self.z.raw as int, k.raw as int),
            r == pt_scaled(self, k.raw as int),
    {
        Point3D { x: self.x.mul(k), y: self.y.mul(k), z: self.z.mul(k) }
    }

    /// Componentwise product with another vector, rounded toward zero.
    pub fn mul(self, rhs: Point3D) -> (r: Point3D)
        requires
            -FX_PROD_LIM <= self.x.raw * rhs.x.raw <= FX_PROD_LIM,
            -FX_PROD_LIM <= self.y.raw * rhs.y.raw <= FX_PROD_LIM,
            -FX_PROD_LIM <= self.z.raw * rhs.z.raw <= FX_PROD_LIM,
        ensures
            r.x.raw == fxmul(self.x.raw as int, rhs.x.raw as int),
            r.y.raw == fxmul(self.y.raw as int, rhs.y.raw as int),
            r.z.raw == fxmul(self.z.raw as int, rhs.z.raw as int),
            r == pt_mulc(self, rhs),
    {
        Point3D { x: self.x.mul(rhs.x), y: self.y.mul(rhs.y), z: self.z.mul(rhs.z) }
    }

    /// Componentwise quotient by a scalar, rounded toward zero.
    pub fn div(self, k: Fx) -> (r: Point3D)
        requires
            k.raw != 0,
            -FX_PROD_LIM <= k.raw,
            -FX_PROD_LIM <= self.x.raw * FX_SCALE <= FX_PROD_LIM,
            -FX_PROD_LIM <= self.y.raw * FX_SCALE <= FX_PROD_LIM,
            -FX_PROD_LIM <= self.z.raw * FX_SCALE <= FX_PROD_LIM,
        ensures
            r.x.raw == fxdiv(self.x.raw as int, k.raw as int),
            r.y.raw == fxdiv(self.y.raw as int, k.raw as int),
            r.z.raw == fxdiv(self.z.raw as int, k.raw as int),
    {
        Point3D { x: self.x.div(k), y: self.y.div(k), z: self.z.div(k) }
    }

    /// Dot product: the exact sum of the three rounded products.
    pub fn dot(&self, other: &Point3D) -> (r: Fx)
        requires
            -FX_PROD_LIM <= self.x.raw * other.x.raw <= FX_PROD_LIM,
            -FX_PROD_LIM <= self.y.raw * other.y.raw <= FX_PROD_LIM,
            -FX_PROD_LIM <= self.z.raw * other.z.raw <= FX_PROD_LIM,
        ensures
            r.raw == dot_spec(*self, *other),
    {
        proof {
            lemma_tdiv_bound(self.x.raw * other.x.raw, FX_SCALE as int, FX_PROD_LIM as int);
            lemma_tdiv_bound(self.y.raw * other.y.raw, FX_SCALE as int, FX_PROD_LIM as int);
            lemma_tdiv_bound(self.z.raw * other.z.raw, FX_SCALE as int, FX_PROD_LIM as int);
        }
        let xx: Fx = self.x.mul(other.x);
        let yy: Fx = self.y.mul(other.y);
        let zz: Fx = self.z.mul(other.z);
        Fx { raw: xx.raw + yy.raw + zz.raw }
    }

    /// Squared length, never negative.
    pub fn length_squared(&self) -> (r: Fx)
        requires
            -FX_PROD_LIM <= self.x.raw * self.x.raw <= FX_PROD_LIM,
            -FX_PROD_LIM <= self.y.raw * self.y.raw <= FX_PROD_LIM,
            -FX_PROD_LIM <= self.z.raw * self.z.raw <= FX_PROD_LIM,
        ensures
            r.raw == dot_spec(*self, *self),
            r.raw >= 0,
    {
        proof {
            lemma_fxmul_self_nonneg(self.x.raw as int);
            lemma_fxmul_self_nonneg(self.y.raw as int);
            lemma_fxmul_self_nonneg(self.z.raw as int);
        }
        self.dot(self)
    }

    /// Cross product, each component the difference of two rounded products.
    pub fn cross(&self, other: &Point3D) -> (r: Point3D)
        requires
            -FX_PROD_LIM <= self.x.raw * other.y.raw <= FX_PROD_LIM,
            -FX_PROD_LIM <= self.x.raw * other.z.raw <= FX_PROD_LIM,
            -FX_PROD_LIM <= self.y.raw * other.x.raw <= FX_PROD_LIM,
            -FX_PROD_LIM <= self.y.raw * other.z.raw <= FX_PROD_LIM,
            -FX_PROD_LIM <= self.z.raw * other.x.raw <= FX_PROD_LIM,
            -FX_PROD_LIM <= self.z.raw * other.y.raw <= FX_PROD_LIM,
        ensures
            r.x.raw == fxmul(self.y.raw as int, other.z.raw as int) - fxmul(
                self.z.raw as int,
                other.y.raw as int,
            ),
            r.y.raw == fxmul(self.z.raw as int, other.x.raw as int) - fxmul(
                self.x.raw as int,
                other.z.raw as int,
            ),
            r.z.raw == fxmul(self.x.raw as int, other.y.raw as int) - fxmul(
                self.y.raw as int,
                other.x.raw as int,
            ),
            r == cross_spec(*self, *other),
    {
        proof {
            lemma_tdiv_bound(self.x.raw * other.y.raw, FX_SCALE as int, FX_PROD_LIM as int);
            lemma_tdiv_bound(self.x.raw * other.z.raw, FX_SCALE as int, FX_PROD_LIM as int);
            lemma_tdiv_bound(self.y.raw * other.x.raw, FX_SCALE as int, FX_PROD_LIM as int);
            lemma_tdiv_bound(self.y.raw * other.z.raw, FX_SCALE as int, FX_PROD_LIM as int);
            lemma_tdiv_bound(self.z.raw * other.x.raw, FX_SCALE as int, FX_PROD_LIM as int);
            lemma_tdiv_bound(self.z.raw * other.y.raw, FX_SCALE as int, FX_PROD_LIM as int);
        }
        Point3D {
            x: self.y.mul(other.z).sub(self.z.mul(other.y)),
            y: self.z.mul(other.x).sub(self.x.mul(other.z)),
            z: self.x.mul(other.y).sub(self.y.mul(other.x)),
        }
    }

    /// All components smaller in magnitude than `NEAR_EPS` raw units.
    pub fn near_zero(&self) -> (r: bool)
        ensures
            r == near_zero_spec(*self),
    {
        -NEAR_EPS < self.x.raw && self.x.raw < NEAR_EPS && -NEAR_EPS < self.y.raw && self.y.raw
            < NEAR_EPS && -NEAR_EPS < self.z.raw && self.z.raw < NEAR_EPS
    }

    /// The vector scaled to unit length: each component is divided by the
    /// rounded-down square root of the squared length. The result stays
    /// within two whole units per component.
    pub fn unit_vector(&self) -> (r: Point3D)
        requires
            self.bounded(PT_UNIT_LIM as int),
            dot_spec(*self, *self) >= 1,
        ensures
            r == unit_spec(*self),
            r.bounded(2 * FX_SCALE),
    {
        proof {
            lemma_dot_in_range(*self, *self, PT_UNIT_LIM as int, PT_UNIT_LIM as int);
        }
        let ls: Fx = self.length_squared();
        let len: Fx = ls.sqrt();
        proof {
            lemma_fxmul_self_nonneg(self.x.raw as int);
            lemma_fxmul_self_nonneg(self.y.raw as int);
            lemma_fxmul_self_nonneg(self.z.raw as int);
            lemma_unit_component_bound(self.x.raw as int, ls.raw as int, len.raw as int);
            lemma_unit_component_bound(self.y.raw as int, ls.raw as int, len.raw as int);
            lemma_unit_component_bound(self.z.raw as int, ls.raw as int, len.raw as int);
        }
        Point3D { x: self.x.div(len), y: self.y.div(len), z: self.z.div(len) }
    }

    /// A point with components drawn uniformly from `[min, max]`.
    pub fn random(min: Fx, max: Fx) -> (r: Point3D)
        requires
            min.raw <= max.raw,
            max.raw - min.raw < 0x8000000000000000,
            -FX_PROD_LIM <= min.raw,
            max.raw <= FX_PROD_LIM,
        ensures
            r.bounded_below_above(min.raw as int, max.raw as int),
    {
        Point3D {
            x: random_component(min, max),
            y: random_component(min, max),
            z: random_component(min, max),
        }
    }

    /// Every component within `[lo, hi]`.
    pub open spec fn bounded_below_above(self, lo: int, hi: int) -> bool {
        &&& lo <= self.x.raw <= hi
        &&& lo <= self.y.raw <= hi
        &&& lo <= self.z.raw <= hi
    }

    /// A point drawn uniformly from the unit cube, accepted only when it
    /// falls strictly inside the unit sphere and no closer to the origin
    /// than half a unit, so that normalizing it keeps the length
    /// tolerance. The direction distribution is unchanged by the inner
    /// cutoff (both regions are radially symmetric). `None` after a
    /// thousand rejected draws.
    pub fn random_in_unit_sphere() -> (r: Option<Point3D>)
        ensures
            r matches Some(p) ==> {
                &&& p.bounded(FX_SCALE as int)
                &&& SAMPLE_FLOOR <= dot_spec(p, p) < FX_SCALE
            },
    {
        let mut i: u32 = 0;
        while i < 1000
            invariant
                i <= 1000,
            decreases 1000 - i,
        {
            let one: Fx = Fx::one();
            let p: Point3D = Self::random(one.neg(), one);
            proof {
                lemma_dot_in_range(p, p, FX_SCALE as int, FX_SCALE as int);
            }
            let ls: Fx = p.length_squared();
            if SAMPLE_FLOOR <= ls.raw && ls.raw < FX_SCALE {
                return Some(p);
            }
            i = i + 1;
        }
        None
    }

    /// A unit vector drawn uniformly by rejection sampling; `None` when the
    /// sampler gives up. A returned vector is the normalization of an
    /// accepted draw, and its squared length sits within a few raw units
    /// of one whole unit (far inside a tolerance of 1e-9).
    pub fn random_unit_vector() -> (r: Option<Point3D>)
        ensures
            r matches Some(u) ==> {
                &&& u.bounded(2 * FX_SCALE)
                &&& FX_SCALE - 21 <= dot_spec(u, u) <= FX_SCALE + 16
                &&& exists|p: Point3D|
                    {
                        &&& p.bounded(FX_SCALE as int)
                        &&& SAMPLE_FLOOR <= dot_spec(p, p) < FX_SCALE
                        &&& u == #[trigger] unit_spec(p)
                    }
            },
    {
        match Self::random_in_unit_sphere() {
            Some(p) => {
                let u: Point3D = p.unit_vector();
                proof {
                    crate::lemmas::lemma_unit_vector_length(p);
                }
                Some(u)
            },
            None => None,
        }
    }
}

/// One uniform draw from `[min, max]`: a random 64-bit value reduced to the
/// width of the interval.
fn random_component(min: Fx, max: Fx) -> (r: Fx)
    requires
        min.raw <= max.raw,
        max.raw - min.raw < 0x8000000000000000,
        -FX_PROD_LIM <= min.raw,
        max.raw <= FX_PROD_LIM,
    ensures
        min.raw <= r.raw <= max.raw,
{
    let v: u64 = rand::random::<u64>();
    let span: i128 = max.raw - min.raw;
    let off: i128 = (v as i128) % (span + 1);
    Fx { raw: min.raw + off }
}

} // verus!
