use mandelbrot::numeric::ComplexBits;
use mandelbrot::mapping::{ImageBounds, PlaneRectangle};
use mandelbrot::mapping::pixel_to_point;
use mandelbrot::escape::escape_time;
use mandelbrot::render::{render, zero_buffer};
use mandelbrot::bands::{partition, Band};
use mandelbrot::engine::{
    assemble, encode_image, full_view, render_band, render_image, render_png, RenderError,
};

fn cpx(re: f64, im: f64) -> ComplexBits {
    ComplexBits { re: re.to_bits(), im: im.to_bits() }
}

fn fixed_view() -> PlaneRectangle {
    PlaneRectangle { upper_left: cpx(-1.0, 1.0), lower_right: cpx(1.0, -1.0) }
}

#[test]
fn full_view_is_fixed_rectangle() {
    assert_eq!(full_view(), fixed_view());
}

#[test]
fn corner_mapping_upper_left() {
    let bounds = ImageBounds { width: 100, height: 100 };
    let rect = fixed_view();
    assert_eq!(pixel_to_point(bounds, (0, 0), rect), rect.upper_left);

    let bounds2 = ImageBounds { width: 8, height: 4 };
    let rect2 = PlaneRectangle { upper_left: cpx(-2.0, 1.5), lower_right: cpx(1.0, -1.5) };
    assert_eq!(pixel_to_point(bounds2, (0, 0), rect2), rect2.upper_left);
}

#[test]
fn corner_mapping_lower_right() {
    let bounds = ImageBounds { width: 100, height: 100 };
    let rect = fixed_view();
    assert_eq!(pixel_to_point(bounds, (100, 100), rect), rect.lower_right);

    let bounds2 = ImageBounds { width: 8, height: 4 };
    let rect2 = PlaneRectangle { upper_left: cpx(-2.0, 1.5), lower_right: cpx(1.0, -1.5) };
    assert_eq!(pixel_to_point(bounds2, (8, 4), rect2), rect2.lower_right);
}

#[test]
fn midpoint_maps_to_plane_origin() {
    let bounds = ImageBounds { width: 100, height: 100 };
    let point = pixel_to_point(bounds, (50, 50), fixed_view());
    assert_eq!(point, cpx(0.0, 0.0));
}

#[test]
fn origin_never_escapes() {
    let origin = cpx(0.0, 0.0);
    assert_eq!(escape_time(origin, 1), None);
    assert_eq!(escape_time(origin, 17), None);
    assert_eq!(escape_time(origin, 255), None);
}

#[test]
fn immediate_escape_outside_disk() {
    let c = cpx(3.0, 0.0);
    assert_eq!(escape_time(c, 1), Some(0));
    assert_eq!(escape_time(c, 2), Some(0));
    assert_eq!(escape_time(c, 255), Some(0));
}

#[test]
fn escape_time_of_known_orbit() {
    // z starts at 0 over c = -1 + i: the iterates are -1 + i, -1 - i and
    // -1 + 3i, whose squared norm 10 first exceeds four at step 2.
    let c = cpx(-1.0, 1.0);
    assert_eq!(escape_time(c, 255), Some(2));
    assert_eq!(escape_time(c, 3), Some(2));
    assert_eq!(escape_time(c, 2), None);
    assert_eq!(escape_time(c, 0), None);
}

#[test]
fn render_matches_per_pixel_computation() {
    let bounds = ImageBounds { width: 2, height: 2 };
    let rect = fixed_view();
    let mut pixels = zero_buffer(4);
    render(&mut pixels, bounds, rect);
    let mut expected = Vec::new();
    for row in 0..2 {
        for col in 0..2 {
            let point = pixel_to_point(bounds, (col, row), rect);
            expected.push(match escape_time(point, 255) {
                None => 0,
                Some(count) => 255 - count as u8,
            });
        }
    }
    assert_eq!(pixels, expected);
    // The upper-left pixel maps to -1 + i, which escapes at step 2; the
    // other three pixels map to points of the set itself.
    assert_eq!(pixels, vec![253, 0, 0, 0]);
}

#[test]
fn buffer_size_invariant() {
    assert_eq!(render_image(7, 5, 1).unwrap().len(), 35);
    assert_eq!(render_image(7, 5, 3).unwrap().len(), 35);
    assert_eq!(render_image(7, 5, 50).unwrap().len(), 35);
}

#[test]
fn partition_concrete_plan() {
    let bounds = ImageBounds { width: 4, height: 10 };
    let rect = fixed_view();
    // rows_per_band = 10 / 3 + 1 = 4: bands of 4, 4 and 2 rows.
    let bands = partition(bounds, rect, 3);
    assert_eq!(bands.len(), 3);
    assert_eq!((bands[0].top, bands[0].height), (0, 4));
    assert_eq!((bands[1].top, bands[1].height), (4, 4));
    assert_eq!((bands[2].top, bands[2].height), (8, 2));
    for band in &bands {
        assert_eq!(band.rect.upper_left, pixel_to_point(bounds, (0, band.top), rect));
        assert_eq!(
            band.rect.lower_right,
            pixel_to_point(bounds, (4, band.top + band.height), rect)
        );
    }
}

#[test]
fn partition_more_workers_than_rows() {
    let bounds = ImageBounds { width: 4, height: 10 };
    // rows_per_band = 10 / 20 + 1 = 1: ten bands of one row, none empty.
    let bands = partition(bounds, fixed_view(), 20);
    assert_eq!(bands.len(), 10);
    for (i, band) in bands.iter().enumerate() {
        assert_eq!(band.top, i);
        assert_eq!(band.height, 1);
    }
}

#[test]
fn partition_even_division_has_fewer_bands() {
    let bounds = ImageBounds { width: 4, height: 10 };
    // rows_per_band = 10 / 5 + 1 = 3: bands of 3, 3, 3 and 1 rows — the
    // established arithmetic plans four bands for five workers.
    let bands = partition(bounds, fixed_view(), 5);
    assert_eq!(bands.len(), 4);
    let shape: Vec<(usize, usize)> = bands.iter().map(|b| (b.top, b.height)).collect();
    assert_eq!(shape, vec![(0, 3), (3, 3), (6, 3), (9, 1)]);
}

#[test]
fn partition_single_worker_single_band() {
    let bounds = ImageBounds { width: 4, height: 10 };
    let bands = partition(bounds, fixed_view(), 1);
    assert_eq!(bands.len(), 1);
    assert_eq!((bands[0].top, bands[0].height), (0, 10));
}

#[test]
fn zero_height_band_renders_nothing() {
    let band = Band { top: 0, height: 0, rect: fixed_view() };
    assert!(render_band(3, band).is_empty());
}

#[test]
fn zero_threads_rejected() {
    assert_eq!(render_image(5, 5, 0), Err(RenderError::InvalidConfiguration));
    assert_eq!(render_png(5, 5, 0), Err(RenderError::InvalidConfiguration));
    // Rejection is owed for any dimensions, even ones no buffer could hold.
    assert_eq!(
        render_image(usize::MAX, usize::MAX, 0),
        Err(RenderError::InvalidConfiguration)
    );
}

#[test]
fn zero_dimensions_rejected() {
    assert_eq!(render_image(0, 5, 1), Err(RenderError::InvalidConfiguration));
    assert_eq!(render_image(5, 0, 1), Err(RenderError::InvalidConfiguration));
}

#[test]
fn determinism_four_workers_match_one() {
    let one = render_image(100, 100, 1).unwrap();
    let four = render_image(100, 100, 4).unwrap();
    assert_eq!(one, four);
}

#[test]
fn determinism_at_uneven_band_boundaries() {
    // 45 rows over 7 workers gives bands of 7 rows with a 3-row tail, so
    // every band corner lands on a non-dyadic fraction of the plane.
    let one = render_image(60, 45, 1).unwrap();
    let seven = render_image(60, 45, 7).unwrap();
    assert_eq!(one, seven);
}

#[test]
fn single_pixel_render() {
    // The only pixel maps to the upper-left corner -1 + i, whose orbit
    // escapes at step 2, so the single byte is 255 - 2.
    let pixels = render_image(1, 1, 1).unwrap();
    assert_eq!(pixels, vec![253]);
    let bounds = ImageBounds { width: 1, height: 1 };
    assert_eq!(pixel_to_point(bounds, (0, 0), fixed_view()), cpx(-1.0, 1.0));
}

#[test]
fn assemble_concatenates_in_order() {
    let pieces = vec![vec![1u8, 2], vec![], vec![3, 4, 5]];
    assert_eq!(assemble(pieces), vec![1, 2, 3, 4, 5]);
}

#[test]
fn banded_pipeline_matches_render_image() {
    // The same sequence of calls the parallel driver makes, run here in
    // band order: plan, render each band on its own, merge.
    let bounds = ImageBounds { width: 100, height: 100 };
    let bands = partition(bounds, full_view(), 4);
    let mut pieces = Vec::new();
    for band in bands {
        pieces.push(render_band(100, band));
    }
    let merged = assemble(pieces);
    assert_eq!(merged, render_image(100, 100, 4).unwrap());
}

#[test]
fn png_roundtrip_preserves_pixels() {
    let pixels = render_image(3, 2, 1).unwrap();
    let png = encode_image(&pixels, 3, 2).unwrap();
    assert_eq!(&png[0..4], &[0x89, 0x50, 0x4E, 0x47]);
    let decoder =
        image::codecs::png::PngDecoder::new(std::io::Cursor::new(&png)).unwrap();
    assert_eq!(image::ImageDecoder::dimensions(&decoder), (3, 2));
    let total = image::ImageDecoder::total_bytes(&decoder) as usize;
    let mut decoded = vec![0u8; total];
    image::ImageDecoder::read_image(decoder, &mut decoded).unwrap();
    assert_eq!(decoded, pixels);
}

#[test]
fn encoding_failure_is_reported() {
    // The codec refuses a zero-sized image; the engine reports it rather
    // than discarding it.
    let empty: Vec<u8> = Vec::new();
    assert_eq!(encode_image(&empty, 0, 0), Err(RenderError::EncodingFailed));
}
