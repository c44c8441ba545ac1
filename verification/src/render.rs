//! Filling a pixel buffer with the escape-time image of a plane rectangle.

use vstd::prelude::*;
use vstd::arithmetic::div_mod::lemma_fundamental_div_mod_converse;
use crate::mapping::{ImageBounds, PlaneRectangle, point_of, pixel_to_point};
use crate::escape::{escape_time, escape_time_spec, lemma_escape_from};

verus! {

/// The fixed iteration limit.  It bounds the cost of one pixel and sets
/// the granularity of the grayscale gradient: an escape at step `n` gives
/// the gray value `255 - n`, and a point that never escapes within the
/// limit gives zero.
pub const ITERATION_LIMIT: u32 = 255;

/// The gray value of the pixel at column `x`, row `y`.
pub open spec fn pixel_byte(bounds: ImageBounds, rect: PlaneRectangle, x: usize, y: usize) -> u8 {
    match escape_time_spec(point_of(bounds, rect, x, y), ITERATION_LIMIT) {
        Option::None => 0u8,
        Option::Some(n) => (255 - n) as u8,
    }
}

/// The whole row-major byte image of `bounds` mapped over `rect`.
pub open spec fn image_seq(bounds: ImageBounds, rect: PlaneRectangle) -> Seq<u8> {
    Seq::new(
        (bounds.width * bounds.height) as nat,
        |k: int| pixel_byte(
            bounds,
            rect,
            (k % (bounds.width as int)) as usize,
            (k / (bounds.width as int)) as usize,
        ),
    )
}

/// Row-major indexing: byte `y * width + x` of the image is the pixel at
/// column `x`, row `y`.
pub proof fn lemma_image_seq_index(bounds: ImageBounds, rect: PlaneRectangle, x: usize, y: usize)
    requires
        x < bounds.width,
        y < bounds.height,
    ensures
        0 <= y * bounds.width + x < bounds.area(),
        image_seq(bounds, rect)[y * bounds.width + x] == pixel_byte(bounds, rect, x, y),
{
    let w = bounds.width as int;
    let k = y * w + x;
    assert(0 <= k < bounds.width * bounds.height) by (nonlinear_arith)
        requires
            x < bounds.width,
            y < bounds.height,
            w == bounds.width,
            k == y * w + x,
    ;
    lemma_fundamental_div_mod_converse(k, w, y as int, x as int);
}

/// Allocates the zero-initialized pixel buffer.
pub fn zero_buffer(n: usize) -> (r: Vec<u8>)
    ensures
        r.len() == n,
        forall|k: int| 0 <= k < n ==> r@[k] == 0u8,
{
    let mut v: Vec<u8> = Vec::new();
    let mut i: usize = 0;
    while i < n
        invariant
            i <= n,
            v.len() == i,
            forall|k: int| 0 <= k < i ==> v@[k] == 0u8,
        decreases n - i,
    {
        v.push(0);
        i = i + 1;
    }
    v
}

/// Writes the escape-time image of `rect` into `pixels`, one byte per
/// pixel in row-major order.  Each byte is written exactly once and no
/// written byte is read back.
pub fn render(pixels: &mut Vec<u8>, bounds: ImageBounds, rect: PlaneRectangle)
    requires
        old(pixels).len() == bounds.width * bounds.height,
    ensures
        final(pixels)@ == image_seq(bounds, rect),
{
    let width = bounds.width;
    let height = bounds.height;
    let mut row: usize = 0;
    while row < height
        invariant
            width == bounds.width,
            height == bounds.height,
            pixels.len() == bounds.width * bounds.height,
            row <= height,
            forall|k: int| 0 <= k < row * bounds.width ==> pixels@[k] == image_seq(bounds, rect)[k],
        decreases height - row,
    {
        let mut col: usize = 0;
        while col < width
            invariant
                width == bounds.width,
                height == bounds.height,
                pixels.len() == bounds.width * bounds.height,
                row < height,
                col <= width,
                forall|k: int| 0 <= k < row * bounds.width + col ==> pixels@[k] == image_seq(bounds, rect)[k],
            decreases width - col,
        {
            proof {
                lemma_image_seq_index(bounds, rect, col, row);
            }
            let point = pixel_to_point(bounds, (col, row), rect);
            let idx = row * width + col;
            let b: u8 = match escape_time(point, ITERATION_LIMIT) {
                Option::None => 0,
                Option::Some(count) => {
                    proof {
                        lemma_escape_from(point, 0, ITERATION_LIMIT);
                    }
                    255 - count as u8
                },
            };
            pixels.set(idx, b);
            col = col + 1;
        }
        proof {
            assert(row * bounds.width + bounds.width == (row + 1) * bounds.width) by (nonlinear_arith);
        }
        row = row + 1;
    }
    proof {
        assert(bounds.height * bounds.width == bounds.width * bounds.height) by (nonlinear_arith);
        assert(pixels@ =~= image_seq(bounds, rect));
    }
}

} // verus!
