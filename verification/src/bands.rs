//! Partitioning the image into row bands, one per worker.

use vstd::prelude::*;
use crate::mapping::{ImageBounds, PlaneRectangle, point_of, pixel_to_point};

verus! {

/// One horizontal band of the output image: the full-width rows
/// `[top, top + height)`, together with the plane rectangle they map
/// onto.  A render fills each band independently of every other.
#[derive(Clone, Copy, PartialEq, Eq, Structural, Debug)]
pub struct Band {
    pub top: usize,
    pub height: usize,
    pub rect: PlaneRectangle,
}

/// Rows per band: `height / thread_num + 1`.  The division truncates and
/// the bias of one guarantees that `thread_num` chunks always cover the
/// whole image; when `thread_num` divides `height` evenly the bias makes
/// the plan hold fewer bands than `thread_num`, which is kept as the
/// established banding arithmetic.
pub open spec fn rows_per_band_spec(height: int, thread_num: int) -> int {
    height / thread_num + 1
}

/// The height of the band starting at row `top`: `rpb` rows, except that
/// the last band absorbs only what is left of the image.
pub open spec fn band_height_at(bounds: ImageBounds, rpb: int, top: int) -> int {
    if bounds.height - top < rpb {
        bounds.height - top
    } else {
        rpb
    }
}

/// The band starting at row `top`, its plane corners mapped against the
/// full-image rectangle.
pub open spec fn band_at(bounds: ImageBounds, rect: PlaneRectangle, rpb: int, top: int) -> Band {
    let bh = band_height_at(bounds, rpb, top);
    Band {
        top: top as usize,
        height: bh as usize,
        rect: PlaneRectangle {
            upper_left: point_of(bounds, rect, 0, top as usize),
            lower_right: point_of(bounds, rect, bounds.width, (top + bh) as usize),
        },
    }
}

/// The consecutive bands from row `top` to the bottom of the image.
pub open spec fn bands_from(bounds: ImageBounds, rect: PlaneRectangle, rpb: int, top: int) -> Seq<Band>
    decreases bounds.height - top,
        when rpb >= 1 && 0 <= top
{
    if top >= bounds.height {
        Seq::empty()
    } else {
        seq![band_at(bounds, rect, rpb, top)]
            + bands_from(bounds, rect, rpb, top + band_height_at(bounds, rpb, top))
    }
}

/// The whole band plan for a render with `thread_num` workers.
pub open spec fn partition_spec(bounds: ImageBounds, rect: PlaneRectangle, thread_num: usize) -> Seq<Band> {
    bands_from(bounds, rect, rows_per_band_spec(bounds.height as int, thread_num as int), 0)
}

/// Whether row `y` of the full image falls inside band `i` of `bands`.
pub open spec fn in_band(bands: Seq<Band>, i: int, y: int) -> bool {
    0 <= i < bands.len() && bands[i].top <= y < bands[i].top + bands[i].height
}

/// Whether some band of `bands` holds row `y`.
pub open spec fn covered(bands: Seq<Band>, y: int) -> bool {
    exists|i: int| in_band(bands, i, y)
}

/// Shape of the plan from row `top` down: the first band starts at `top`,
/// every band has between one and `rpb` rows and ends within the image,
/// and each band ends exactly where the next begins — the last at the
/// bottom of the image.
pub proof fn lemma_bands_from_structure(bounds: ImageBounds, rect: PlaneRectangle, rpb: int, top: int)
    requires
        rpb >= 1,
        0 <= top <= bounds.height,
    ensures
        ({
            let bands = bands_from(bounds, rect, rpb, top);
            &&& (top < bounds.height <==> bands.len() >= 1)
            &&& bands.len() >= 1 ==> bands[0].top == top
            &&& forall|i: int| 0 <= i < bands.len() ==> 1 <= (#[trigger] bands[i]).height <= rpb
            &&& forall|i: int| 0 <= i < bands.len() ==> (#[trigger] bands[i]).top >= top
            &&& forall|i: int| 0 <= i < bands.len()
                ==> (#[trigger] bands[i]).top + bands[i].height
                    == (if i == bands.len() - 1 { bounds.height as int } else { bands[i + 1].top as int })
        }),
    decreases bounds.height - top,
{
    if top < bounds.height {
        let bh = band_height_at(bounds, rpb, top);
        lemma_bands_from_structure(bounds, rect, rpb, top + bh);
        let head = seq![band_at(bounds, rect, rpb, top)];
        let tail = bands_from(bounds, rect, rpb, top + bh);
        let bands = bands_from(bounds, rect, rpb, top);
        assert(bands == head + tail);
        assert(forall|i: int| 1 <= i < bands.len() ==> #[trigger] bands[i] == tail[i - 1]);
        assert(bands[0] == band_at(bounds, rect, rpb, top));
    }
}

/// Every band of the plan ends at or above the bottom of the image.
pub proof fn lemma_bands_from_within(bounds: ImageBounds, rect: PlaneRectangle, rpb: int, top: int)
    requires
        rpb >= 1,
        0 <= top <= bounds.height,
    ensures
        ({
            let bands = bands_from(bounds, rect, rpb, top);
            forall|i: int| 0 <= i < bands.len()
                ==> (#[trigger] bands[i]).top + bands[i].height <= bounds.height
        }),
    decreases bounds.height - top,
{
    if top < bounds.height {
        let bh = band_height_at(bounds, rpb, top);
        lemma_bands_from_within(bounds, rect, rpb, top + bh);
        let head = seq![band_at(bounds, rect, rpb, top)];
        let tail = bands_from(bounds, rect, rpb, top + bh);
        let bands = bands_from(bounds, rect, rpb, top);
        assert(bands == head + tail);
        assert(forall|i: int| 1 <= i < bands.len() ==> #[trigger] bands[i] == tail[i - 1]);
        assert(bands[0] == band_at(bounds, rect, rpb, top));
    }
}

/// Bands of the plan are ordered by ascending `top` and have pairwise
/// disjoint row ranges: each ends at or before the start of any later one.
pub proof fn lemma_bands_from_disjoint(bounds: ImageBounds, rect: PlaneRectangle, rpb: int, top: int)
    requires
        rpb >= 1,
        0 <= top <= bounds.height,
    ensures
        ({
            let bands = bands_from(bounds, rect, rpb, top);
            forall|i: int, j: int| 0 <= i < j < bands.len()
                ==> (#[trigger] bands[i]).top + bands[i].height <= (#[trigger] bands[j]).top
        }),
    decreases bounds.height - top,
{
    if top < bounds.height {
        let bh = band_height_at(bounds, rpb, top);
        lemma_bands_from_disjoint(bounds, rect, rpb, top + bh);
        lemma_bands_from_structure(bounds, rect, rpb, top + bh);
        let head = seq![band_at(bounds, rect, rpb, top)];
        let tail = bands_from(bounds, rect, rpb, top + bh);
        let bands = bands_from(bounds, rect, rpb, top);
        assert(bands == head + tail);
        assert(forall|i: int| 1 <= i < bands.len() ==> #[trigger] bands[i] == tail[i - 1]);
        assert(bands[0] == band_at(bounds, rect, rpb, top));
    }
}

/// Every row of the image below `top` falls inside some band of the plan.
pub proof fn lemma_bands_from_cover(bounds: ImageBounds, rect: PlaneRectangle, rpb: int, top: int, y: int)
    requires
        rpb >= 1,
        0 <= top <= y < bounds.height,
    ensures
        covered(bands_from(bounds, rect, rpb, top), y),
    decreases bounds.height - top,
{
    let bh = band_height_at(bounds, rpb, top);
    let bands = bands_from(bounds, rect, rpb, top);
    let head = seq![band_at(bounds, rect, rpb, top)];
    let tail = bands_from(bounds, rect, rpb, top + bh);
    assert(bands == head + tail);
    if y < top + bh {
        assert(bands[0] == band_at(bounds, rect, rpb, top));
        assert(in_band(bands, 0, y));
    } else {
        lemma_bands_from_cover(bounds, rect, rpb, top + bh, y);
        let i = choose|i: int| in_band(tail, i, y);
        assert(bands[i + 1] == tail[i]);
        assert(in_band(bands, i + 1, y));
    }
}

/// Band partition coverage: for a well-formed image and a positive worker
/// count, the planned bands all have at least one row, are ordered by
/// ascending `top` with pairwise disjoint row ranges, and their row
/// ranges union to exactly `[0, height)`.
pub proof fn lemma_partition_covers(bounds: ImageBounds, rect: PlaneRectangle, thread_num: usize)
    requires
        bounds.wf(),
        thread_num >= 1,
    ensures
        ({
            let bands = partition_spec(bounds, rect, thread_num);
            &&& bands.len() >= 1
            &&& bands[0].top == 0
            &&& bands[bands.len() - 1].top + bands[bands.len() - 1].height == bounds.height
            &&& forall|i: int| 0 <= i < bands.len() ==> 1 <= (#[trigger] bands[i]).height
            &&& forall|i: int| 0 <= i < bands.len()
                ==> (#[trigger] bands[i]).top + bands[i].height <= bounds.height
            &&& forall|i: int, j: int| 0 <= i < j < bands.len()
                ==> (#[trigger] bands[i]).top + bands[i].height <= (#[trigger] bands[j]).top
            &&& forall|y: int| 0 <= y < bounds.height ==> #[trigger] covered(bands, y)
        }),
{
    let rpb = rows_per_band_spec(bounds.height as int, thread_num as int);
    vstd::arithmetic::div_mod::lemma_div_pos_is_pos(bounds.height as int, thread_num as int);
    lemma_bands_from_structure(bounds, rect, rpb, 0);
    lemma_bands_from_within(bounds, rect, rpb, 0);
    lemma_bands_from_disjoint(bounds, rect, rpb, 0);
    assert forall|y: int| 0 <= y < bounds.height
        implies #[trigger] covered(partition_spec(bounds, rect, thread_num), y) by {
        lemma_bands_from_cover(bounds, rect, rpb, 0, y);
    }
}

/// Splits the image into consecutive full-width row bands of
/// `height / thread_num + 1` rows each — the last band absorbing only
/// what is left — and maps each band's corner pixels against the
/// full-image rectangle to obtain its plane rectangle.
///
/// The caller validates the configuration first: this function expects a
/// well-formed image and a positive worker count.
pub fn partition(bounds: ImageBounds, rect: PlaneRectangle, thread_num: usize) -> (r: Vec<Band>)
    requires
        bounds.wf(),
        thread_num >= 1,
        bounds.height < usize::MAX,
    ensures
        r@ == partition_spec(bounds, rect, thread_num),
{
    let rows_per_band = bounds.height / thread_num + 1;
    let ghost rpb = rows_per_band_spec(bounds.height as int, thread_num as int);
    let mut bands: Vec<Band> = Vec::new();
    let mut top: usize = 0;
    while top < bounds.height
        invariant
            bounds.wf(),
            rows_per_band == rpb,
            rpb >= 1,
            top <= bounds.height,
            partition_spec(bounds, rect, thread_num)
                == bands@ + bands_from(bounds, rect, rpb, top as int),
        decreases bounds.height - top,
    {
        let remaining = bounds.height - top;
        let band_height = if remaining < rows_per_band { remaining } else { rows_per_band };
        let upper_left = pixel_to_point(bounds, (0, top), rect);
        let lower_right = pixel_to_point(bounds, (bounds.width, top + band_height), rect);
        let band = Band {
            top,
            height: band_height,
            rect: PlaneRectangle { upper_left, lower_right },
        };
        proof {
            assert(band == band_at(bounds, rect, rpb, top as int));
            assert(bands_from(bounds, rect, rpb, top as int)
                == seq![band_at(bounds, rect, rpb, top as int)]
                    + bands_from(bounds, rect, rpb, top as int + band_height_at(bounds, rpb, top as int)));
            assert((bands@ + seq![band]) + bands_from(bounds, rect, rpb, (top + band_height) as int)
                =~= bands@ + bands_from(bounds, rect, rpb, top as int));
        }
        bands.push(band);
        top = top + band_height;
    }
    proof {
        assert(bands@ + bands_from(bounds, rect, rpb, top as int) =~= bands@);
    }
    bands
}

} // verus!
