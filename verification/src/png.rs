//! The trusted boundary to the external PNG codec.

use vstd::prelude::*;

verus! {

/// The PNG container encoding of a row-major, eight-bit grayscale image
/// of the given dimensions, as the codec library produces it.
pub uninterp spec fn png_bytes_of(pixels: Seq<u8>, width: u32, height: u32) -> Seq<u8>;

/// Whether the codec encodes a row-major, eight-bit grayscale image of
/// the given dimensions at all.  Encoding writes into an in-memory
/// buffer, so its success, like its output, is a function of the pixel
/// bytes and the dimensions alone.
pub uninterp spec fn png_encode_ok(pixels: Seq<u8>, width: u32, height: u32) -> bool;

/// Relies on image's `PngEncoder` and its `ImageEncoder::write_image`
/// with eight-bit luma color, writing into an in-memory buffer: whether
/// the encoding succeeds, and the encoded container when it does, are
/// functions of the pixel bytes and the dimensions alone.  `write_image`
/// asserts that the buffer length matches the dimensions, which the
/// precondition guarantees; every other failure comes back as an error
/// and is reported as `None`.
#[verifier::external_body]
pub(crate) fn encode_png(pixels: &Vec<u8>, width: u32, height: u32) -> (r: Option<Vec<u8>>)
    requires
        pixels.len() == width * height,
    ensures
        r is Some <==> png_encode_ok(pixels@, width, height),
        r is Some ==> r.unwrap()@ == png_bytes_of(pixels@, width, height),
{
    let mut out: Vec<u8> = Vec::new();
    let encoder = image::codecs::png::PngEncoder::new(&mut out);
    let result = image::ImageEncoder::write_image(
        encoder,
        pixels,
        width,
        height,
        image::ExtendedColorType::L8,
    );
    match result {
        Ok(()) => Some(out),
        Err(_) => None,
    }
}

} // verus!
