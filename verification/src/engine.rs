//! The render engine: validation, banded rendering, assembly, encoding.

use vstd::prelude::*;
use crate::numeric::ComplexBits;
use crate::mapping::{ImageBounds, PlaneRectangle};
use crate::render::{image_seq, render, zero_buffer};
use crate::bands::{
    Band, band_at, band_height_at, bands_from, partition, partition_spec, rows_per_band_spec,
    lemma_bands_from_structure, lemma_bands_from_within,
};
use crate::png::{encode_png, png_bytes_of, png_encode_ok};

verus! {

/// Why a render refused to run or to finish.
#[derive(Clone, Copy, PartialEq, Eq, Structural, Debug)]
pub enum RenderError {
    /// A zero width, height or worker count: rejected before any
    /// allocation or partitioning.
    InvalidConfiguration,
    /// The external PNG codec reported a failure.
    EncodingFailed,
}

/// Bit pattern of the double value one.
pub const ONE_BITS: u64 = 0x3FF0000000000000;

/// Bit pattern of the double value minus one.
pub const NEG_ONE_BITS: u64 = 0xBFF0000000000000;

/// The fixed view the engine renders: the plane rectangle with upper-left
/// corner `-1 + i` and lower-right corner `1 - i`.
pub open spec fn full_view_spec() -> PlaneRectangle {
    PlaneRectangle {
        upper_left: ComplexBits { re: NEG_ONE_BITS, im: ONE_BITS },
        lower_right: ComplexBits { re: ONE_BITS, im: NEG_ONE_BITS },
    }
}

/// The fixed view, as a value.
pub fn full_view() -> (r: PlaneRectangle)
    ensures
        r == full_view_spec(),
{
    PlaneRectangle {
        upper_left: ComplexBits { re: NEG_ONE_BITS, im: ONE_BITS },
        lower_right: ComplexBits { re: ONE_BITS, im: NEG_ONE_BITS },
    }
}

/// A configuration the engine accepts: nothing may be zero.
pub open spec fn valid_config(width: usize, height: usize, thread_num: usize) -> bool {
    width >= 1 && height >= 1 && thread_num >= 1
}

/// The bytes of a band plan rendered in order: each band's image, one
/// after the other.
pub open spec fn bands_image(bands: Seq<Band>, width: usize) -> Seq<u8>
    decreases bands.len(),
{
    if bands.len() == 0 {
        Seq::empty()
    } else {
        image_seq(ImageBounds { width, height: bands[0].height }, bands[0].rect)
            + bands_image(bands.drop_first(), width)
    }
}

/// The full image a render of the given configuration produces: the plan
/// for the fixed view, rendered band by band.
pub open spec fn rendered_image_spec(width: usize, height: usize, thread_num: usize) -> Seq<u8> {
    bands_image(
        partition_spec(ImageBounds { width, height }, full_view_spec(), thread_num),
        width,
    )
}

/// A plan's image from row `top` down holds one byte per remaining pixel.
pub proof fn lemma_plan_image_len(bounds: ImageBounds, rect: PlaneRectangle, rpb: int, top: int)
    requires
        rpb >= 1,
        0 <= top <= bounds.height,
    ensures
        bands_image(bands_from(bounds, rect, rpb, top), bounds.width).len()
            == (bounds.height - top) * bounds.width,
    decreases bounds.height - top,
{
    let bands = bands_from(bounds, rect, rpb, top);
    if top >= bounds.height {
        assert((bounds.height - top) * bounds.width == 0) by (nonlinear_arith)
            requires
                top == bounds.height,
        ;
    } else {
        let bh = band_height_at(bounds, rpb, top);
        lemma_plan_image_len(bounds, rect, rpb, top + bh);
        assert(bands[0] == band_at(bounds, rect, rpb, top));
        assert(bands.drop_first() =~= bands_from(bounds, rect, rpb, top + bh));
        assert(bounds.width * bh + (bounds.height - (top + bh)) * bounds.width
            == (bounds.height - top) * bounds.width) by (nonlinear_arith);
    }
}

/// Buffer size invariant: the image of any valid configuration holds
/// exactly one byte per pixel, whatever the worker count.
pub proof fn lemma_rendered_image_len(width: usize, height: usize, thread_num: usize)
    requires
        valid_config(width, height, thread_num),
    ensures
        rendered_image_spec(width, height, thread_num).len() == width * height,
{
    let bounds = ImageBounds { width, height };
    vstd::arithmetic::div_mod::lemma_div_pos_is_pos(height as int, thread_num as int);
    lemma_plan_image_len(
        bounds,
        full_view_spec(),
        rows_per_band_spec(height as int, thread_num as int),
        0,
    );
    assert(height * width == width * height) by (nonlinear_arith);
}

/// Renders one band of the image into a freshly allocated buffer of its
/// own, mapping the band's rows over the band's plane rectangle.
pub fn render_band(width: usize, band: Band) -> (r: Vec<u8>)
    requires
        width * band.height <= usize::MAX,
    ensures
        r@ == image_seq(ImageBounds { width, height: band.height }, band.rect),
{
    let bounds = ImageBounds { width, height: band.height };
    let mut pixels = zero_buffer(width * band.height);
    render(&mut pixels, bounds, band.rect);
    pixels
}

/// Determinism of assembly: whatever order the bands were rendered in,
/// once every band's buffer equals that band's image, concatenating the
/// buffers in band order yields exactly the image of the whole plan.
pub proof fn lemma_assembled_plan(bands: Seq<Band>, width: usize, pieces: Seq<Seq<u8>>)
    requires
        pieces.len() == bands.len(),
        forall|i: int| 0 <= i < bands.len()
            ==> #[trigger] pieces[i]
                == image_seq(ImageBounds { width, height: bands[i].height }, bands[i].rect),
    ensures
        pieces.flatten() == bands_image(bands, width),
    decreases bands.len(),
{
    if bands.len() == 0 {
        assert(pieces.flatten() =~= Seq::<u8>::empty());
    } else {
        assert(forall|i: int| 0 <= i < bands.drop_first().len()
            ==> #[trigger] pieces.drop_first()[i] == pieces[i + 1]);
        lemma_assembled_plan(bands.drop_first(), width, pieces.drop_first());
        assert(pieces.first() == pieces[0]);
    }
}

/// Renders the fixed view at the given dimensions, split into row bands
/// by the worker count, and returns the completed row-major grayscale
/// buffer.  A zero width, height or worker count is rejected as an
/// invalid configuration before anything is allocated or partitioned.
#[verifier::loop_isolation(false)]
#[verifier::rlimit(60)]
pub fn render_image(width: usize, height: usize, thread_num: usize) -> (r: Result<Vec<u8>, RenderError>)
    requires
        valid_config(width, height, thread_num) ==> width * height <= usize::MAX,
        valid_config(width, height, thread_num) ==> height < usize::MAX,
    ensures
        r is Ok <==> valid_config(width, height, thread_num),
        r is Err ==> r == Err::<Vec<u8>, RenderError>(RenderError::InvalidConfiguration),
        r is Ok ==> r.unwrap()@ == rendered_image_spec(width, height, thread_num),
        r is Ok ==> r.unwrap().len() == width * height,
{
    if width == 0 || height == 0 || thread_num == 0 {
        return Err(RenderError::InvalidConfiguration);
    }
    let bounds = ImageBounds { width, height };
    let view = full_view();
    let bands = partition(bounds, view, thread_num);
    let ghost rpb = rows_per_band_spec(height as int, thread_num as int);
    let ghost plan = partition_spec(bounds, full_view_spec(), thread_num);
    proof {
        vstd::arithmetic::div_mod::lemma_div_pos_is_pos(height as int, thread_num as int);
        lemma_bands_from_structure(bounds, full_view_spec(), rpb, 0);
        lemma_bands_from_within(bounds, full_view_spec(), rpb, 0);
        lemma_plan_image_len(bounds, full_view_spec(), rpb, 0);
    }
    let mut out: Vec<u8> = Vec::new();
    let mut i: usize = 0;
    proof {
        assert(out@ =~= Seq::<u8>::empty());
        assert(plan.skip(0) =~= plan);
        assert(out@ + bands_image(plan, width) =~= bands_image(plan, width));
    }
    while i < bands.len()
        invariant
            i <= bands.len(),
            bands_image(plan, width) == out@ + bands_image(plan.skip(i as int), width),
        decreases bands.len() - i,
    {
        let band = bands[i];
        proof {
            assert(band == plan[i as int]);
            assert(band.height <= height);
            assert(width * band.height <= width * height) by (nonlinear_arith)
                requires
                    band.height <= height,
            ;
            let s = plan.skip(i as int);
            assert(s[0] == plan[i as int]);
            assert(s.drop_first() =~= plan.skip(i as int + 1));
        }
        let mut piece = render_band(width, band);
        let ghost prev = out@;
        let ghost piece_view = piece@;
        out.append(&mut piece);
        proof {
            let s = plan.skip(i as int);
            assert(bands_image(s, width)
                == image_seq(ImageBounds { width, height: s[0].height }, s[0].rect)
                    + bands_image(s.drop_first(), width));
            assert(out@ == prev + piece_view);
            assert(prev + (piece_view + bands_image(plan.skip(i as int + 1), width))
                =~= (prev + piece_view) + bands_image(plan.skip(i as int + 1), width));
        }
        i = i + 1;
    }
    proof {
        assert(plan.skip(plan.len() as int) =~= Seq::<Band>::empty());
        assert(out@ + bands_image(plan.skip(plan.len() as int), width) =~= out@);
        assert((height - 0) * width == width * height) by (nonlinear_arith);
    }
    Ok(out)
}

/// The views of a sequence of owned byte buffers.
pub open spec fn views_of(pieces: Seq<Vec<u8>>) -> Seq<Seq<u8>> {
    pieces.map_values(|p: Vec<u8>| p@)
}

/// Concatenates rendered band buffers, in band order, into one image
/// buffer.  Together with `lemma_assembled_plan` this is the merge step:
/// once every buffer holds its band's image, the result is the image of
/// the whole plan, whatever order the buffers were filled in.
#[verifier::loop_isolation(false)]
pub fn assemble(pieces: Vec<Vec<u8>>) -> (r: Vec<u8>)
    ensures
        r@ == views_of(pieces@).flatten(),
{
    let ghost orig = pieces@;
    let mut pieces = pieces;
    let mut out: Vec<u8> = Vec::new();
    proof {
        assert(out@ =~= Seq::<u8>::empty());
        assert(out@ + views_of(pieces@).flatten() =~= views_of(pieces@).flatten());
    }
    while pieces.len() > 0
        invariant
            views_of(orig).flatten() == out@ + views_of(pieces@).flatten(),
        decreases pieces.len(),
    {
        let ghost cur = pieces@;
        let mut first = pieces.remove(0);
        let ghost prev = out@;
        let ghost first_view = first@;
        proof {
            assert(pieces@ =~= cur.drop_first());
            assert(views_of(cur)[0] == first_view);
            assert(views_of(cur).drop_first() =~= views_of(cur.drop_first()));
            assert(views_of(cur).flatten()
                == first_view + views_of(cur.drop_first()).flatten());
        }
        out.append(&mut first);
        proof {
            assert(out@ == prev + first_view);
            assert(prev + (first_view + views_of(pieces@).flatten())
                =~= (prev + first_view) + views_of(pieces@).flatten());
        }
    }
    proof {
        assert(views_of(pieces@).len() == 0);
        assert(out@ + views_of(pieces@).flatten() =~= out@);
    }
    out
}

/// Encodes a completed pixel buffer as a PNG container.  It succeeds
/// exactly when the codec encodes these bytes at these dimensions, and
/// then returns exactly the codec's container.
pub fn encode_image(pixels: &Vec<u8>, width: usize, height: usize) -> (r: Result<Vec<u8>, RenderError>)
    requires
        pixels.len() == width * height,
        width <= u32::MAX,
        height <= u32::MAX,
    ensures
        r is Ok <==> png_encode_ok(pixels@, width as u32, height as u32),
        r is Ok ==> r.unwrap()@ == png_bytes_of(pixels@, width as u32, height as u32),
        r is Err ==> r == Err::<Vec<u8>, RenderError>(RenderError::EncodingFailed),
{
    match encode_png(pixels, width as u32, height as u32) {
        Option::Some(v) => Ok(v),
        Option::None => Err(RenderError::EncodingFailed),
    }
}

/// The whole pipeline short of file I/O: validates the configuration,
/// renders the fixed view in row bands, and encodes the buffer as a PNG
/// container.  On a valid configuration it succeeds exactly when the
/// codec encodes the rendered image.
pub fn render_png(width: usize, height: usize, thread_num: usize) -> (r: Result<Vec<u8>, RenderError>)
    requires
        valid_config(width, height, thread_num) ==> width * height <= usize::MAX,
        valid_config(width, height, thread_num) ==> height < usize::MAX,
        valid_config(width, height, thread_num) ==> width <= u32::MAX,
        valid_config(width, height, thread_num) ==> height <= u32::MAX,
    ensures
        !valid_config(width, height, thread_num)
            <==> r == Err::<Vec<u8>, RenderError>(RenderError::InvalidConfiguration),
        valid_config(width, height, thread_num)
            ==> (r is Ok <==> png_encode_ok(
                rendered_image_spec(width, height, thread_num),
                width as u32,
                height as u32,
            )),
        r is Ok ==> r.unwrap()@
            == png_bytes_of(rendered_image_spec(width, height, thread_num), width as u32, height as u32),
        r is Err ==> (r == Err::<Vec<u8>, RenderError>(RenderError::InvalidConfiguration)
            || r == Err::<Vec<u8>, RenderError>(RenderError::EncodingFailed)),
{
    let pixels = match render_image(width, height, thread_num) {
        Ok(p) => p,
        Err(e) => {
            return Err(e);
        },
    };
    encode_image(&pixels, width, height)
}

} // verus!
