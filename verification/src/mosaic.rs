//! Simulating the capture of an RGB picture through a BGGR filter mosaic.

use crate::bayer::{color_from_pixel_coord, spec_color_from_pixel_coord, BayerColor};
use crate::raster::{flat_buffer, flat_color_hint, flat_layout, get_sample, set_sample, RasterLayout};
use image::flat::FlatSamples;
use vstd::prelude::*;

verus! {

/// The channel of an RGB pixel that a filter lets through: 0 is red, 1 green,
/// 2 blue.
pub open spec fn native_channel(color: BayerColor) -> int {
    match color {
        BayerColor::Red => 0,
        BayerColor::GreenOne => 1,
        BayerColor::GreenTwo => 1,
        BayerColor::Blue => 2,
    }
}

/// Channel `channel` at `(x, y)` is one that the filter over that pixel blocks,
/// inside a window of `width` columns and `height` rows.
pub open spec fn blocked(width: int, height: int, channel: int, x: int, y: int) -> bool {
    &&& 0 <= x < width
    &&& 0 <= y < height
    &&& 0 <= channel < 3
    &&& channel != native_channel(spec_color_from_pixel_coord(x, y))
}

/// Every blocked sample of the window has a place in the raster's buffer.
pub open spec fn mosaic_ready(layout: RasterLayout, len: nat, width: int, height: int) -> bool {
    forall|channel: int, x: int, y: int| #[trigger]
        blocked(width, height, channel, x, y) ==> layout.addressable(len, channel, x, y)
}

/// Position `i` of the buffer holds a blocked sample of a pixel that comes
/// before column `col`, or before row `row` in column `col`.
pub open spec fn blocked_before(
    layout: RasterLayout,
    width: int,
    height: int,
    col: int,
    row: int,
    i: int,
) -> bool {
    exists|channel: int, x: int, y: int| #[trigger]
        blocked(width, height, channel, x, y) && (x < col || (x == col && y < row))
            && layout.offset(channel, x, y) == i
}

/// Position `i` of the buffer holds a blocked sample of the window.
pub open spec fn blocked_at(layout: RasterLayout, width: int, height: int, i: int) -> bool {
    exists|channel: int, x: int, y: int| #[trigger]
        blocked(width, height, channel, x, y) && layout.offset(channel, x, y) == i
}

/// The buffer of a picture seen through the mosaic: every blocked sample of
/// the window is zero, every other position keeps its value.
pub open spec fn spec_mosaic(layout: RasterLayout, buffer: Seq<u8>, width: int, height: int) -> Seq<u8> {
    Seq::new(
        buffer.len(),
        |i: int| if blocked_at(layout, width, height, i) { 0u8 } else { buffer[i] },
    )
}

/// One more pixel: the positions blocked before the pixel after `(x, y)` are
/// those blocked before `(x, y)` and the two blocked samples of `(x, y)` itself.
pub(crate) proof fn lemma_blocked_step(
    layout: RasterLayout,
    width: int,
    height: int,
    x: int,
    y: int,
    lo: int,
    hi: int,
    i: int,
)
    requires
        blocked(width, height, lo, x, y),
        blocked(width, height, hi, x, y),
        lo != hi,
    ensures
        blocked_before(layout, width, height, x, y + 1, i) <==> (blocked_before(
            layout,
            width,
            height,
            x,
            y,
            i,
        ) || i == layout.offset(lo, x, y) || i == layout.offset(hi, x, y)),
{
    if blocked_before(layout, width, height, x, y + 1, i) {
        let (c, a, b) = choose|c: int, a: int, b: int| #[trigger]
            blocked(width, height, c, a, b) && (a < x || (a == x && b < y + 1)) && layout.offset(
                c,
                a,
                b,
            ) == i;
        if a == x && b == y {
            assert(c == lo || c == hi);
        } else {
            assert(blocked(width, height, c, a, b) && (a < x || (a == x && b < y)));
        }
    }
    if blocked_before(layout, width, height, x, y, i) {
        let (c, a, b) = choose|c: int, a: int, b: int| #[trigger]
            blocked(width, height, c, a, b) && (a < x || (a == x && b < y)) && layout.offset(
                c,
                a,
                b,
            ) == i;
        assert(blocked(width, height, c, a, b) && (a < x || (a == x && b < y + 1)));
    }
    if i == layout.offset(lo, x, y) {
        assert(blocked(width, height, lo, x, y) && (x < x || (x == x && y < y + 1)));
    }
    if i == layout.offset(hi, x, y) {
        assert(blocked(width, height, hi, x, y) && (x < x || (x == x && y < y + 1)));
    }
}

/// The end of a column is the start of the next one.
pub(crate) proof fn lemma_blocked_next_column(layout: RasterLayout, width: int, height: int, x: int, i: int)
    ensures
        blocked_before(layout, width, height, x, height, i) <==> blocked_before(
            layout,
            width,
            height,
            x + 1,
            0,
            i,
        ),
{
    if blocked_before(layout, width, height, x, height, i) {
        let (c, a, b) = choose|c: int, a: int, b: int| #[trigger]
            blocked(width, height, c, a, b) && (a < x || (a == x && b < height))
                && layout.offset(c, a, b) == i;
        assert(blocked(width, height, c, a, b) && (a < x + 1 || (a == x + 1 && b < 0)));
    }
    if blocked_before(layout, width, height, x + 1, 0, i) {
        let (c, a, b) = choose|c: int, a: int, b: int| #[trigger]
            blocked(width, height, c, a, b) && (a < x + 1 || (a == x + 1 && b < 0))
                && layout.offset(c, a, b) == i;
        assert(blocked(width, height, c, a, b) && (a < x || (a == x && b < height)));
    }
}

/// Before the first pixel nothing is blocked; after the last column all of
/// the window is.
pub(crate) proof fn lemma_blocked_ends(layout: RasterLayout, width: int, height: int, i: int)
    ensures
        !blocked_before(layout, width, height, 0, 0, i),
        blocked_before(layout, width, height, width, 0, i) <==> blocked_at(layout, width, height, i),
{
    if blocked_at(layout, width, height, i) {
        let (c, a, b) = choose|c: int, a: int, b: int| #[trigger]
            blocked(width, height, c, a, b) && layout.offset(c, a, b) == i;
        assert(blocked(width, height, c, a, b) && (a < width || (a == width && b < 0)));
    }
}

/// The two channels that a filter blocks, the lower one first.
pub(crate) fn blocked_channels(color: BayerColor) -> (pair: (u8, u8))
    ensures
        pair.0 < pair.1 < 3,
        pair.0 != native_channel(color),
        pair.1 != native_channel(color),
{
    match color {
        BayerColor::Blue => (0, 1),
        BayerColor::GreenOne | BayerColor::GreenTwo => (0, 2),
        BayerColor::Red => (1, 2),
    }
}

/// Sets one sample of the raster to zero.
fn clear_sample(img: &mut FlatSamples<Vec<u8>>, channel: u8, x: u32, y: u32)
    requires
        flat_layout(*old(img)).addressable(
            flat_buffer(*old(img)).len(),
            channel as int,
            x as int,
            y as int,
        ),
    ensures
        flat_layout(*final(img)) == flat_layout(*old(img)),
        flat_color_hint(*final(img)) == flat_color_hint(*old(img)),
        flat_buffer(*final(img)) == flat_buffer(*old(img)).update(
            flat_layout(*old(img)).offset(channel as int, x as int, y as int),
            0u8,
        ),
{
    let _ = set_sample(img, channel, x, y, 0);
}

/// The picture that a BGGR sensor would record of an RGB picture: in every
/// pixel of the first `width` columns and `height` rows the two channels that
/// the pixel's filter blocks are set to zero.
pub fn create_bayer_img(img_rgb_flat: FlatSamples<Vec<u8>>, width: u32, height: u32) -> (img_bayer_flat:
    FlatSamples<Vec<u8>>)
    requires
        mosaic_ready(
            flat_layout(img_rgb_flat),
            flat_buffer(img_rgb_flat).len(),
            width as int,
            height as int,
        ),
    ensures
        flat_layout(img_bayer_flat) == flat_layout(img_rgb_flat),
        flat_color_hint(img_bayer_flat) == flat_color_hint(img_rgb_flat),
        flat_buffer(img_bayer_flat) == spec_mosaic(
            flat_layout(img_rgb_flat),
            flat_buffer(img_rgb_flat),
            width as int,
            height as int,
        ),
{
    let ghost layout = flat_layout(img_rgb_flat);
    let ghost before = flat_buffer(img_rgb_flat);
    let ghost hint = flat_color_hint(img_rgb_flat);
    let mut img = img_rgb_flat;
    let mut x: u32 = 0;
    proof {
        assert forall|i: int| !blocked_before(layout, width as int, height as int, 0, 0, i) by {
            lemma_blocked_ends(layout, width as int, height as int, i);
        }
    }
    while x < width
        invariant
            x <= width,
            flat_layout(img) == layout,
            flat_color_hint(img) == hint,
            flat_buffer(img).len() == before.len(),
            mosaic_ready(layout, before.len(), width as int, height as int),
            forall|i: int|
                0 <= i < before.len() ==> #[trigger] flat_buffer(img)[i] == if blocked_before(
                    layout,
                    width as int,
                    height as int,
                    x as int,
                    0,
                    i,
                ) {
                    0u8
                } else {
                    before[i]
                },
        decreases width - x,
    {
        let mut y: u32 = 0;
        while y < height
            invariant
                x < width,
                y <= height,
                flat_layout(img) == layout,
                flat_color_hint(img) == hint,
                flat_buffer(img).len() == before.len(),
                mosaic_ready(layout, before.len(), width as int, height as int),
                forall|i: int|
                    0 <= i < before.len() ==> #[trigger] flat_buffer(img)[i] == if blocked_before(
                        layout,
                        width as int,
                        height as int,
                        x as int,
                        y as int,
                        i,
                    ) {
                        0u8
                    } else {
                        before[i]
                    },
            decreases height - y,
        {
            let ghost start = flat_buffer(img);
            let (lo, hi): (u8, u8) = blocked_channels(color_from_pixel_coord(x, y));
            assert(blocked(width as int, height as int, lo as int, x as int, y as int));
            assert(blocked(width as int, height as int, hi as int, x as int, y as int));
            clear_sample(&mut img, lo, x, y);
            clear_sample(&mut img, hi, x, y);
            proof {
                assert forall|i: int| 0 <= i < before.len() implies #[trigger] flat_buffer(img)[i]
                    == if blocked_before(layout, width as int, height as int, x as int, y + 1, i) {
                    0u8
                } else {
                    before[i]
                } by {
                    lemma_blocked_step(
                        layout,
                        width as int,
                        height as int,
                        x as int,
                        y as int,
                        lo as int,
                        hi as int,
                        i,
                    );
                    assert(start[i] == if blocked_before(
                        layout,
                        width as int,
                        height as int,
                        x as int,
                        y as int,
                        i,
                    ) {
                        0u8
                    } else {
                        before[i]
                    });
                }
            }
            y += 1;
        }
        proof {
            assert forall|i: int| 0 <= i < before.len() implies #[trigger] flat_buffer(img)[i]
                == if blocked_before(layout, width as int, height as int, x + 1, 0, i) {
                0u8
            } else {
                before[i]
            } by {
                lemma_blocked_next_column(layout, width as int, height as int, x as int, i);
            }
        }
        x += 1;
    }
    proof {
        assert forall|i: int| 0 <= i < before.len() implies #[trigger] flat_buffer(img)[i]
            == spec_mosaic(layout, before, width as int, height as int)[i] by {
            lemma_blocked_ends(layout, width as int, height as int, i);
        }
        assert(flat_buffer(img) =~= spec_mosaic(layout, before, width as int, height as int));
    }
    img
}

/// What the mosaiced picture holds in the place of one sample of the raster:
/// zero where the filter blocks the sample, and, in a raster without shared
/// positions, the sample itself where it does not.
pub proof fn lemma_mosaic_samples(
    layout: RasterLayout,
    buffer: Seq<u8>,
    width: int,
    height: int,
    channel: int,
    x: int,
    y: int,
)
    requires
        mosaic_ready(layout, buffer.len(), width, height),
        layout.addressable(buffer.len(), channel, x, y),
    ensures
        blocked(width, height, channel, x, y) ==> spec_mosaic(layout, buffer, width, height)[layout.offset(
            channel,
            x,
            y,
        )] == 0,
        layout.distinct() && !blocked(width, height, channel, x, y) ==> spec_mosaic(
            layout,
            buffer,
            width,
            height,
        )[layout.offset(channel, x, y)] == buffer[layout.offset(channel, x, y)],
{
    let at = layout.offset(channel, x, y);
    if blocked(width, height, channel, x, y) {
        assert(blocked(width, height, channel, x, y) && layout.offset(channel, x, y) == at);
    }
    if layout.distinct() && !blocked(width, height, channel, x, y) && blocked_at(
        layout,
        width,
        height,
        at,
    ) {
        let (c, a, b) = choose|c: int, a: int, b: int| #[trigger]
            blocked(width, height, c, a, b) && layout.offset(c, a, b) == at;
        assert(layout.addressable(buffer.len(), c, a, b));
    }
}

/// Whether every sample that `create_bayer_img` would clear has a place in
/// the raster.
fn is_mosaic_ready(img: &FlatSamples<Vec<u8>>, width: u32, height: u32) -> (ready: bool)
    ensures
        ready == mosaic_ready(
            flat_layout(*img),
            flat_buffer(*img).len(),
            width as int,
            height as int,
        ),
{
    let ghost layout = flat_layout(*img);
    let ghost len = flat_buffer(*img).len();
    let mut x: u32 = 0;
    while x < width
        invariant
            x <= width,
            layout == flat_layout(*img),
            len == flat_buffer(*img).len(),
            forall|c: int, a: int, b: int| #[trigger]
                blocked(width as int, height as int, c, a, b) && a < x ==> layout.addressable(
                    len,
                    c,
                    a,
                    b,
                ),
        decreases width - x,
    {
        let mut y: u32 = 0;
        while y < height
            invariant
                x < width,
                y <= height,
                layout == flat_layout(*img),
                len == flat_buffer(*img).len(),
                forall|c: int, a: int, b: int| #[trigger]
                    blocked(width as int, height as int, c, a, b) && (a < x || (a == x && b < y))
                        ==> layout.addressable(len, c, a, b),
            decreases height - y,
        {
            let (lo, hi): (u8, u8) = blocked_channels(color_from_pixel_coord(x, y));
            assert(blocked(width as int, height as int, lo as int, x as int, y as int));
            assert(blocked(width as int, height as int, hi as int, x as int, y as int));
            if get_sample(img, lo, x, y).is_none() || get_sample(img, hi, x, y).is_none() {
                return false;
            }
            y += 1;
        }
        x += 1;
    }
    true
}

/// `create_bayer_img` for any raster: `Ok` with the mosaiced picture where
/// every sample to clear has a place in the raster, else `Err` with the
/// picture as it came.
pub fn try_create_bayer_img(img_rgb_flat: FlatSamples<Vec<u8>>, width: u32, height: u32) -> (outcome:
    Result<FlatSamples<Vec<u8>>, FlatSamples<Vec<u8>>>)
    ensures
        outcome is Ok <==> mosaic_ready(
            flat_layout(img_rgb_flat),
            flat_buffer(img_rgb_flat).len(),
            width as int,
            height as int,
        ),
        outcome matches Ok(img_bayer_flat) ==> {
            &&& flat_layout(img_bayer_flat) == flat_layout(img_rgb_flat)
            &&& flat_color_hint(img_bayer_flat) == flat_color_hint(img_rgb_flat)
            &&& flat_buffer(img_bayer_flat) == spec_mosaic(
                flat_layout(img_rgb_flat),
                flat_buffer(img_rgb_flat),
                width as int,
                height as int,
            )
        },
        outcome matches Err(untouched) ==> untouched == img_rgb_flat,
{
    if is_mosaic_ready(&img_rgb_flat, width, height) {
        Ok(create_bayer_img(img_rgb_flat, width, height))
    } else {
        Err(img_rgb_flat)
    }
}

} // verus!
