//! Colors: three fixed-point channels, accumulated before tone mapping.

use crate::fx::{fxdiv, fxmul, fxsqrt, lemma_tdiv_bound, tdiv, Fx, FX_PROD_LIM, FX_SCALE};
use vstd::arithmetic::div_mod::{lemma_div_is_ordered, lemma_div_pos_is_pos};
use vstd::prelude::*;

verus! {

/// Largest channel value accepted when quantizing: 2^80 raw units.
pub const CHAN_LIM: i128 = 1208925819614629174706176;

/// The clamp ceiling before quantization: 0.999, rounded to raw units.
pub const CLAMP_MAX: i128 = 68650757259;

/// A color; channels are nonnegative in working values and unbounded above
/// until tone mapping clamps them.
#[derive(Clone, Copy, Debug, PartialEq, Eq, Structural)]
pub struct Color {
    pub r: Fx,
    pub g: Fx,
    pub b: Fx,
}

/// The exact channelwise sum of two colors.
pub open spec fn c_sum(a: Color, b: Color) -> Color {
    Color {
        r: Fx { raw: (a.r.raw + b.r.raw) as i128 },
        g: Fx { raw: (a.g.raw + b.g.raw) as i128 },
        b: Fx { raw: (a.b.raw + b.b.raw) as i128 },
    }
}

/// The channelwise product of two colors, each product rounded.
pub open spec fn c_mul(a: Color, b: Color) -> Color {
    Color {
        r: Fx { raw: fxmul(a.r.raw as int, b.r.raw as int) as i128 },
        g: Fx { raw: fxmul(a.g.raw as int, b.g.raw as int) as i128 },
        b: Fx { raw: fxmul(a.b.raw as int, b.b.raw as int) as i128 },
    }
}

/// A color scaled channelwise by a raw factor, each product rounded.
pub open spec fn c_scale(a: Color, k: int) -> Color {
    Color {
        r: Fx { raw: fxmul(a.r.raw as int, k) as i128 },
        g: Fx { raw: fxmul(a.g.raw as int, k) as i128 },
        b: Fx { raw: fxmul(a.b.raw as int, k) as i128 },
    }
}

/// One channel of the tone-mapped output: the accumulated value is averaged
/// over the sample count, gamma-corrected by a square root, clamped to
/// `[0, 0.999]` and quantized to `floor(255.999 * value)`.
pub open spec fn quant_channel_spec(c: int, samples: int) -> int {
    let scale = fxdiv(FX_SCALE as int, samples * FX_SCALE);
    let flat = fxsqrt(fxmul(c, scale));
    let clamped = if flat < 0 {
        0
    } else if flat > CLAMP_MAX {
        CLAMP_MAX as int
    } else {
        flat
    };
    clamped * 255999 / 1000 / (FX_SCALE as int)
}

impl Color {
    /// The all-zero color.
    pub open spec fn black_spec() -> Color {
        Color { r: Fx { raw: 0 }, g: Fx { raw: 0 }, b: Fx { raw: 0 } }
    }

    /// Every channel within `[lo, hi]` raw units.
    pub open spec fn channels_in(self, lo: int, hi: int) -> bool {
        &&& lo <= self.r.raw <= hi
        &&& lo <= self.g.raw <= hi
        &&& lo <= self.b.raw <= hi
    }

    pub fn new(r: Fx, g: Fx, b: Fx) -> (c: Color)
        ensures
            c == (Color { r, g, b }),
    {
        Color { r, g, b }
    }

    /// Pure red.
    pub fn red() -> (c: Color)
        ensures
            c.r.raw == FX_SCALE && c.g.raw == 0 && c.b.raw == 0,
    {
        Color { r: Fx::one(), g: Fx::zero(), b: Fx::zero() }
    }

    /// Pure white.
    pub fn white() -> (c: Color)
        ensures
            c.r.raw == FX_SCALE && c.g.raw == FX_SCALE && c.b.raw == FX_SCALE,
    {
        Color { r: Fx::one(), g: Fx::one(), b: Fx::one() }
    }

    /// Pure black.
    pub fn black() -> (c: Color)
        ensures
            c.r.raw == 0 && c.g.raw == 0 && c.b.raw == 0,
            c == Color::black_spec(),
    {
        Color { r: Fx::zero(), g: Fx::zero(), b: Fx::zero() }
    }

    /// A middle gray: 0.4 in each channel.
    pub fn gray() -> (c: Color)
        ensures
            c.channels_in(tdiv(4 * FX_SCALE, 10), tdiv(4 * FX_SCALE, 10)),
    {
        let v: Fx = Fx::from_ratio(4, 10);
        Color { r: v, g: v, b: v }
    }

    /// A leafy green: (0.2, 0.9, 0.1).
    pub fn green() -> (c: Color)
        ensures
            c.r.raw == tdiv(2 * FX_SCALE, 10),
            c.g.raw == tdiv(9 * FX_SCALE, 10),
            c.b.raw == tdiv(1 * FX_SCALE, 10),
    {
        Color { r: Fx::from_ratio(2, 10), g: Fx::from_ratio(9, 10), b: Fx::from_ratio(1, 10) }
    }

    /// Exact channelwise sum.
    pub fn add(self, rhs: Color) -> (c: Color)
        requires
            -FX_PROD_LIM <= self.r.raw + rhs.r.raw <= FX_PROD_LIM,
            -FX_PROD_LIM <= self.g.raw + rhs.g.raw <= FX_PROD_LIM,
            -FX_PROD_LIM <= self.b.raw + rhs.b.raw <= FX_PROD_LIM,
        ensures
            c.r.raw == self.r.raw + rhs.r.raw,
            c.g.raw == self.g.raw + rhs.g.raw,
            c.b.raw == self.b.raw + rhs.b.raw,
            c == c_sum(self, rhs),
    {
        Color { r: self.r.add(rhs.r), g: self.g.add(rhs.g), b: self.b.add(rhs.b) }
    }

    /// Channelwise product with another color, rounded toward zero.
    pub fn mul(self, rhs: Color) -> (c: Color)
        requires
            -FX_PROD_LIM <= self.r.raw * rhs.r.raw <= FX_PROD_LIM,
            -FX_PROD_LIM <= self.g.raw * rhs.g.raw <= FX_PROD_LIM,
            -FX_PROD_LIM <= self.b.raw * rhs.b.raw <= FX_PROD_LIM,
        ensures
            c.r.raw == fxmul(self.r.raw as int, rhs.r.raw as int),
            c.g.raw == fxmul(self.g.raw as int, rhs.g.raw as int),
            c.b.raw == fxmul(self.b.raw as int, rhs.b.raw as int),
            c == c_mul(self, rhs),
    {
        Color { r: self.r.mul(rhs.r), g: self.g.mul(rhs.g), b: self.b.mul(rhs.b) }
    }

    /// Channelwise product with a scalar, rounded toward zero.
    pub fn scale(self, k: Fx) -> (c: Color)
        requires
            -FX_PROD_LIM <= self.r.raw * k.raw <= FX_PROD_LIM,
            -FX_PROD_LIM <= self.g.raw * k.raw <= FX_PROD_LIM,
            -FX_PROD_LIM <= self.b.raw * k.raw <= FX_PROD_LIM,
        ensures
            c.r.raw == fxmul(self.r.raw as int, k.raw as int),
            c.g.raw == fxmul(self.g.raw as int, k.raw as int),
            c.b.raw == fxmul(self.b.raw as int, k.raw as int),
            c == c_scale(self, k.raw as int),
    {
        Color { r: self.r.mul(k), g: self.g.mul(k), b: self.b.mul(k) }
    }

    /// Tone-map an accumulated color into three 8-bit channels: average over
    /// the sample count, gamma-correct with a square root, clamp to
    /// `[0, 0.999]`, quantize by `floor(255.999 * value)`.
    pub fn quantize(&self, samples_per_pixel: u32) -> (q: (u8, u8, u8))
        requires
            1 <= samples_per_pixel <= 1048576,
            self.channels_in(0, CHAN_LIM as int),
        ensures
            q.0 == quant_channel_spec(self.r.raw as int, samples_per_pixel as int),
            q.1 == quant_channel_spec(self.g.raw as int, samples_per_pixel as int),
            q.2 == quant_channel_spec(self.b.raw as int, samples_per_pixel as int),
    {
        let samples: Fx = Fx::from_int(samples_per_pixel as i64);
        let scale: Fx = Fx::one().div(samples);
        proof {
            lemma_div_pos_is_pos((FX_SCALE as int) * (FX_SCALE as int), samples.raw as int);
            vstd::arithmetic::div_mod::lemma_div_is_ordered_by_denominator(
                (FX_SCALE as int) * (FX_SCALE as int),
                FX_SCALE as int,
                samples.raw as int,
            );
            vstd::arithmetic::div_mod::lemma_div_by_multiple(FX_SCALE as int, FX_SCALE as int);
        }
        (
            quant_channel(self.r, scale, samples_per_pixel),
            quant_channel(self.g, scale, samples_per_pixel),
            quant_channel(self.b, scale, samples_per_pixel),
        )
    }
}

/// One channel of [`Color::quantize`].
fn quant_channel(c: Fx, scale: Fx, samples_per_pixel: u32) -> (q: u8)
    requires
        1 <= samples_per_pixel <= 1048576,
        0 <= c.raw <= CHAN_LIM,
        scale.raw == fxdiv(FX_SCALE as int, samples_per_pixel * FX_SCALE),
        0 <= scale.raw <= FX_SCALE,
    ensures
        q == quant_channel_spec(c.raw as int, samples_per_pixel as int),
{
    proof {
        assert(0 <= c.raw * scale.raw <= FX_PROD_LIM) by (nonlinear_arith)
            requires
                0 <= c.raw <= CHAN_LIM,
                0 <= scale.raw <= FX_SCALE,
        ;
        lemma_tdiv_bound(c.raw * scale.raw, FX_SCALE as int, FX_PROD_LIM as int);
        lemma_div_pos_is_pos(c.raw * scale.raw, FX_SCALE as int);
        crate::fx::lemma_prod_lim_div_scale();
    }
    let flat: Fx = c.mul(scale).sqrt();
    let clamped: i128 = if flat.raw < 0 {
        0
    } else if flat.raw > CLAMP_MAX {
        CLAMP_MAX
    } else {
        flat.raw
    };
    proof {
        lemma_div_pos_is_pos(clamped * 255999, 1000);
        lemma_div_pos_is_pos((clamped * 255999) / 1000, FX_SCALE as int);
        lemma_div_is_ordered(clamped * 255999, CLAMP_MAX * 255999, 1000);
        lemma_div_is_ordered(
            (clamped * 255999) / 1000,
            (CLAMP_MAX as int) * 255999 / 1000,
            FX_SCALE as int,
        );
        assert(clamped * 255999 <= CLAMP_MAX * 255999) by (nonlinear_arith)
            requires
                0 <= clamped <= CLAMP_MAX,
        ;
    }
    let q: i128 = clamped * 255999 / 1000 / FX_SCALE;
    q as u8
}

} // verus!
