//! Rasters of interleaved or planar samples, as the `image` crate holds them.

use image::flat::FlatSamples;
use image::ColorType;
use vstd::arithmetic::div_mod::lemma_fundamental_div_mod_converse;
use vstd::prelude::*;

verus! {

/// `image::flat::FlatSamples`, a sample buffer with the description of its
/// layout. The library sees nothing inside it: what it holds is named by
/// `flat_buffer`, `flat_layout` and `flat_color_hint`.
#[verifier::external_type_specification]
#[verifier::external_body]
#[verifier::reject_recursive_types(Buffer)]
pub struct ExFlatSamples<Buffer>(FlatSamples<Buffer>);

/// `image::ColorType`, the enumeration of colour interpretations. The
/// library only carries such a value along.
#[verifier::external_type_specification]
#[verifier::external_body]
pub struct ExColorType(ColorType);

/// Where the samples of a raster lie in its buffer: the extent of each of the
/// three axes and the distance in the buffer between neighbours along it.
#[derive(Clone, Copy, Debug, PartialEq, Eq, Structural)]
pub struct RasterLayout {
    pub channels: u8,
    pub channel_stride: usize,
    pub width: u32,
    pub width_stride: usize,
    pub height: u32,
    pub height_stride: usize,
}

impl RasterLayout {
    /// Channel `channel` of the pixel in column `x` of row `y` belongs to the raster.
    pub open spec fn in_bounds(self, channel: int, x: int, y: int) -> bool {
        0 <= channel < self.channels && 0 <= x < self.width && 0 <= y < self.height
    }

    /// The position in the buffer of channel `channel` at `(x, y)`.
    pub open spec fn offset(self, channel: int, x: int, y: int) -> int {
        channel * self.channel_stride + x * self.width_stride + y * self.height_stride
    }

    /// No two samples of the raster share a position in the buffer.
    pub open spec fn distinct(self) -> bool {
        forall|c1: int, x1: int, y1: int, c2: int, x2: int, y2: int|
            self.in_bounds(c1, x1, y1) && self.in_bounds(c2, x2, y2) && #[trigger] self.offset(
                c1,
                x1,
                y1,
            ) == #[trigger] self.offset(c2, x2, y2) ==> c1 == c2 && x1 == x2 && y1 == y2
    }

    /// The sample belongs to the raster and lies inside a buffer of `len` samples.
    pub open spec fn addressable(self, len: nat, channel: int, x: int, y: int) -> bool {
        self.in_bounds(channel, x, y) && self.offset(channel, x, y) < len
    }
}

/// The samples lie pixel after pixel and row after row, without gaps: what
/// an image buffer turns into.
pub open spec fn row_major_packed(layout: RasterLayout) -> bool {
    &&& layout.channel_stride == 1
    &&& layout.width_stride == layout.channels
    &&& layout.height_stride == layout.channels * layout.width
}

/// In a packed raster no two samples share a position.
pub proof fn lemma_packed_is_distinct(layout: RasterLayout)
    requires
        row_major_packed(layout),
    ensures
        layout.distinct(),
{
    let channels = layout.channels as int;
    let width = layout.width as int;
    assert forall|c1: int, x1: int, y1: int, c2: int, x2: int, y2: int|
        layout.in_bounds(c1, x1, y1) && layout.in_bounds(c2, x2, y2) && #[trigger] layout.offset(
            c1,
            x1,
            y1,
        ) == #[trigger] layout.offset(c2, x2, y2) implies c1 == c2 && x1 == x2 && y1 == y2 by {
        let at = layout.offset(c1, x1, y1);
        assert(at == (x1 + y1 * width) * channels + c1) by (nonlinear_arith)
            requires
                at == c1 * 1 + x1 * channels + y1 * (channels * width),
        ;
        assert(at == (x2 + y2 * width) * channels + c2) by (nonlinear_arith)
            requires
                at == c2 * 1 + x2 * channels + y2 * (channels * width),
        ;
        lemma_fundamental_div_mod_converse(at, channels, x1 + y1 * width, c1);
        lemma_fundamental_div_mod_converse(at, channels, x2 + y2 * width, c2);
        let pixel = x1 + y1 * width;
        lemma_fundamental_div_mod_converse(pixel, width, y1, x1);
        lemma_fundamental_div_mod_converse(pixel, width, y2, x2);
    }
}

/// What the field `samples` of a raster holds: its buffer, sample by sample.
pub uninterp spec fn flat_buffer(img: FlatSamples<Vec<u8>>) -> Seq<u8>;

/// What the field `layout` of a raster holds, each of the six fields of the
/// crate's `SampleLayout` under its own name.
pub uninterp spec fn flat_layout(img: FlatSamples<Vec<u8>>) -> RasterLayout;

/// What the field `color_hint` of a raster holds: the colour interpretation
/// that it carries along.
pub uninterp spec fn flat_color_hint(img: FlatSamples<Vec<u8>>) -> Option<ColorType>;

/// The sample of channel `channel` at `(x, y)`, where the raster has one.
pub open spec fn spec_sample(img: FlatSamples<Vec<u8>>, channel: int, x: int, y: int) -> Option<u8> {
    if flat_layout(img).addressable(flat_buffer(img).len(), channel, x, y) {
        Some(flat_buffer(img)[flat_layout(img).offset(channel, x, y)])
    } else {
        None
    }
}

/// Reads one sample through `FlatSamples::get_sample`.
///
/// The crate looks the sample up at `channel * channel_stride + x * width_stride
/// + y * height_stride` and answers `None` when a coordinate is outside the
/// layout's bounds, when that sum does not fit a `usize`, or when it lies past
/// the end of the buffer; a sum below the buffer's length always fits.
#[verifier::external_body]
pub(crate) fn get_sample(img: &FlatSamples<Vec<u8>>, channel: u8, x: u32, y: u32) -> (sample: Option<u8>)
    ensures
        sample == spec_sample(*img, channel as int, x as int, y as int),
{
    let found: Option<&u8> = img.get_sample(channel, x, y);
    found.copied()
}

/// Writes one sample through `FlatSamples::get_mut_sample`.
///
/// The crate finds the sample as `get_sample` does. Where it finds one, that
/// position of the buffer receives `value`; nothing else of the raster changes,
/// and nothing at all where it finds none.
#[verifier::external_body]
pub(crate) fn set_sample(img: &mut FlatSamples<Vec<u8>>, channel: u8, x: u32, y: u32, value: u8) -> (stored: bool)
    ensures
        stored == flat_layout(*old(img)).addressable(
            flat_buffer(*old(img)).len(),
            channel as int,
            x as int,
            y as int,
        ),
        flat_layout(*final(img)) == flat_layout(*old(img)),
        flat_color_hint(*final(img)) == flat_color_hint(*old(img)),
        stored ==> flat_buffer(*final(img)) == flat_buffer(*old(img)).update(
            flat_layout(*old(img)).offset(channel as int, x as int, y as int),
            value,
        ),
        !stored ==> flat_buffer(*final(img)) == flat_buffer(*old(img)),
{
    let found: Option<&mut u8> = img.get_mut_sample(channel, x, y);
    match found {
        Some(sample) => {
            *sample = value;
            true
        },
        None => false,
    }
}

} // verus!
