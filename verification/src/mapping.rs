//! Pixel-grid to complex-plane mapping.

use vstd::prelude::*;
use crate::numeric::ComplexBits;
use crate::numeric::{fp_add, fp_sub, fp_mul, fp_div, fp_of_usize};
use crate::numeric::{fp_add_bits, fp_sub_bits, fp_mul_bits, fp_div_bits, fp_of_usize_bits};

verus! {

/// Pixel dimensions of an image or of one of its row bands.
#[derive(Clone, Copy, PartialEq, Eq, Structural, Debug)]
pub struct ImageBounds {
    pub width: usize,
    pub height: usize,
}

impl ImageBounds {
    /// A well-formed image has at least one column and one row.
    pub open spec fn wf(self) -> bool {
        self.width >= 1 && self.height >= 1
    }

    /// The number of pixels, and so of bytes in the pixel buffer.
    pub open spec fn area(self) -> int {
        self.width * self.height
    }
}

/// The complex-plane rectangle that an image maps onto, in screen
/// orientation: the imaginary coordinate decreases from the top row of
/// pixels to the bottom one.
#[derive(Clone, Copy, PartialEq, Eq, Structural, Debug)]
pub struct PlaneRectangle {
    pub upper_left: ComplexBits,
    pub lower_right: ComplexBits,
}

/// The plane point of pixel column `x` and row `y`: the affine map
/// `upper_left + (x * span_re / width, -(y * span_im / height))`,
/// evaluated in double precision in exactly the order `pixel_to_point`
/// evaluates it.
pub open spec fn point_of(bounds: ImageBounds, rect: PlaneRectangle, x: usize, y: usize) -> ComplexBits {
    let span_re = fp_sub_bits(rect.lower_right.re, rect.upper_left.re);
    let span_im = fp_sub_bits(rect.upper_left.im, rect.lower_right.im);
    ComplexBits {
        re: fp_add_bits(
            rect.upper_left.re,
            fp_div_bits(fp_mul_bits(fp_of_usize_bits(x), span_re), fp_of_usize_bits(bounds.width)),
        ),
        im: fp_sub_bits(
            rect.upper_left.im,
            fp_div_bits(fp_mul_bits(fp_of_usize_bits(y), span_im), fp_of_usize_bits(bounds.height)),
        ),
    }
}

/// Maps a pixel position to its point on the complex plane.
///
/// The pixel may lie one past the grid in either direction: the corner
/// `(width, height)` is mapped on purpose when a band's lower-right plane
/// corner is computed.
pub fn pixel_to_point(bounds: ImageBounds, pixel: (usize, usize), rect: PlaneRectangle) -> (r: ComplexBits)
    ensures
        r == point_of(bounds, rect, pixel.0, pixel.1),
{
    let span_re = fp_sub(rect.lower_right.re, rect.upper_left.re);
    let span_im = fp_sub(rect.upper_left.im, rect.lower_right.im);
    let re = fp_add(
        rect.upper_left.re,
        fp_div(fp_mul(fp_of_usize(pixel.0), span_re), fp_of_usize(bounds.width)),
    );
    let im = fp_sub(
        rect.upper_left.im,
        fp_div(fp_mul(fp_of_usize(pixel.1), span_im), fp_of_usize(bounds.height)),
    );
    ComplexBits { re, im }
}

} // verus!
