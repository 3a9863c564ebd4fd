//! The pixel buffer: accumulated per-pixel color sums, row-major.

use crate::color::{Color, CHAN_LIM};
use vstd::prelude::*;

verus! {

/// The accumulated color buffer of a render: `width * height` pixels in
/// row-major order, top row first, each the unnormalized sum of that
/// pixel's samples.
pub struct Image {
    pub width: usize,
    pub height: usize,
    pub samples_per_pixel: u32,
    pub pixels: Vec<Color>,
}

impl Image {
    /// The buffer length matches the dimensions, the dimensions and sample
    /// count stay within the quantizer's budget, and every stored pixel
    /// keeps its channels in the accumulator range.
    pub open spec fn wf(self) -> bool {
        &&& self.pixels.len() == self.width * self.height
        &&& 1 <= self.width <= 32768
        &&& 1 <= self.height <= 32768
        &&& 1 <= self.samples_per_pixel <= 1048576
        &&& forall|i: int|
            0 <= i < self.pixels.len() ==> (#[trigger] self.pixels[i]).channels_in(
                0,
                CHAN_LIM as int,
            )
    }

    /// A black image with the default 25 samples per pixel.
    pub fn new(width: usize, height: usize) -> (r: Image)
        requires
            1 <= width <= 32768,
            1 <= height <= 32768,
        ensures
            r.wf(),
            r.width == width,
            r.height == height,
            r.samples_per_pixel == 25,
            forall|i: int| 0 <= i < r.pixels.len() ==> #[trigger] r.pixels[i] == Color::black_spec(),
    {
        proof {
            assert(width * height <= 1073741824) by (nonlinear_arith)
                requires
                    width <= 32768,
                    height <= 32768,
            ;
        }
        let n: usize = width * height;
        let mut pixels: Vec<Color> = Vec::new();
        let mut i: usize = 0;
        while i < n
            invariant
                i <= n,
                pixels.len() == i,
                forall|j: int| 0 <= j < i ==> #[trigger] pixels[j] == Color::black_spec(),
            decreases n - i,
        {
            pixels.push(Color::black());
            i = i + 1;
        }
        Image { width, height, samples_per_pixel: 25, pixels }
    }

    /// Overwrite the pixel at column `x`, row `y`.
    pub fn set_pixel(&mut self, x: usize, y: usize, color: Color)
        requires
            old(self).wf(),
            x < old(self).width,
            y < old(self).height,
            color.channels_in(0, CHAN_LIM as int),
        ensures
            final(self).wf(),
            final(self).width == old(self).width,
            final(self).height == old(self).height,
            final(self).samples_per_pixel == old(self).samples_per_pixel,
            final(self).pixels@ == old(self).pixels@.update(
                x + y * old(self).width,
                color,
            ),
    {
        proof {
            assert(x + y * self.width < self.width * self.height && self.width * self.height
                <= 1073741824) by (nonlinear_arith)
                requires
                    x < self.width,
                    y < self.height,
                    self.width <= 32768,
                    self.height <= 32768,
            ;
        }
        let i: usize = x + y * self.width;
        self.pixels.set(i, color);
    }
}

} // verus!
