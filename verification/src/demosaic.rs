//! Nearest-neighbour reconstruction of the channels that a BGGR mosaic blocks.

use crate::bayer::{color_from_pixel_coord, spec_color_from_pixel_coord};
use crate::mosaic::{
    blocked, blocked_at, blocked_before, blocked_channels, lemma_blocked_ends,
    lemma_blocked_next_column, lemma_blocked_step, lemma_mosaic_samples, mosaic_ready,
    native_channel, spec_mosaic,
};
use crate::raster::{flat_buffer, flat_color_hint, flat_layout, get_sample, set_sample, RasterLayout};
use image::flat::FlatSamples;
use vstd::prelude::*;

verus! {

/// The column of the pixel that lends its sample of `channel` to `(x, y)`:
/// the nearest pixel whose filter lets that channel through, looking right
/// for red, left for blue and sideways along the row for green.
pub open spec fn donor_x(channel: int, x: int, y: int) -> int {
    if channel == 0 {
        x - x % 2 + 1
    } else if channel == 2 {
        x - x % 2
    } else if x % 2 != y % 2 {
        x
    } else if x % 2 == 0 {
        x + 1
    } else {
        x - 1
    }
}

/// The row of the pixel that lends its sample of `channel` to `(x, y)`: the
/// row below for red, the row above for blue, the same row for green.
pub open spec fn donor_y(channel: int, x: int, y: int) -> int {
    if channel == 0 {
        y - y % 2 + 1
    } else if channel == 2 {
        y - y % 2
    } else {
        y
    }
}

/// Every blocked sample of the window, and the sample that is to replace it,
/// has a place in the raster's buffer.
pub open spec fn demosaic_ready(layout: RasterLayout, len: nat, width: int, height: int) -> bool {
    forall|channel: int, x: int, y: int| #[trigger]
        blocked(width, height, channel, x, y) ==> layout.addressable(len, channel, x, y)
            && layout.addressable(
            len,
            channel,
            donor_x(channel, x, y),
            donor_y(channel, x, y),
        )
}

/// The buffer after the sample of `channel` at `(x, y)` took the value that
/// its donor has in `buffer`.
pub open spec fn fill_sample(layout: RasterLayout, buffer: Seq<u8>, channel: int, x: int, y: int) -> Seq<
    u8,
> {
    buffer.update(
        layout.offset(channel, x, y),
        buffer[layout.offset(channel, donor_x(channel, x, y), donor_y(channel, x, y))],
    )
}

/// The lower of the two channels blocked at `(x, y)`.
pub open spec fn first_blocked(x: int, y: int) -> int {
    if native_channel(spec_color_from_pixel_coord(x, y)) == 0 {
        1
    } else {
        0
    }
}

/// The higher of the two channels blocked at `(x, y)`.
pub open spec fn second_blocked(x: int, y: int) -> int {
    if native_channel(spec_color_from_pixel_coord(x, y)) == 2 {
        1
    } else {
        2
    }
}

/// The buffer after both blocked channels of `(x, y)` were filled, the lower
/// channel first.
pub open spec fn fill_pixel(layout: RasterLayout, buffer: Seq<u8>, x: int, y: int) -> Seq<u8> {
    fill_sample(
        layout,
        fill_sample(layout, buffer, first_blocked(x, y), x, y),
        second_blocked(x, y),
        x,
        y,
    )
}

/// The buffer after the first `rows` pixels of column `x` were filled, from
/// row 0 down.
pub open spec fn fill_column(layout: RasterLayout, buffer: Seq<u8>, x: int, rows: nat) -> Seq<u8>
    decreases rows,
{
    if rows == 0 {
        buffer
    } else {
        fill_pixel(layout, fill_column(layout, buffer, x, (rows - 1) as nat), x, rows - 1)
    }
}

/// The buffer after the first `cols` columns of `height` rows were filled,
/// from column 0 on.
pub open spec fn fill_columns(layout: RasterLayout, buffer: Seq<u8>, height: nat, cols: nat) -> Seq<u8>
    decreases cols,
{
    if cols == 0 {
        buffer
    } else {
        fill_column(
            layout,
            fill_columns(layout, buffer, height, (cols - 1) as nat),
            cols - 1,
            height,
        )
    }
}

/// The buffer of a demosaiced picture. The pixels are visited column by
/// column and each blocked sample takes the value that its donor holds at
/// that moment, so that in a raster whose samples share positions an earlier
/// pixel can change what a later one receives.
pub open spec fn spec_demosaic(layout: RasterLayout, buffer: Seq<u8>, width: nat, height: nat) -> Seq<u8> {
    fill_columns(layout, buffer, height, width)
}

/// Every blocked sample of the window holds in `after` what its donor held
/// in `before`, and every other position of the buffer holds what it held.
pub open spec fn takes_nearest(
    layout: RasterLayout,
    before: Seq<u8>,
    after: Seq<u8>,
    width: int,
    height: int,
) -> bool {
    &&& after.len() == before.len()
    &&& forall|channel: int, x: int, y: int| #[trigger]
        blocked(width, height, channel, x, y) ==> after[layout.offset(channel, x, y)]
            == before[layout.offset(channel, donor_x(channel, x, y), donor_y(channel, x, y))]
    &&& forall|i: int|
        0 <= i < before.len() && !blocked_at(layout, width, height, i) ==> #[trigger] after[i]
            == before[i]
}

/// The pixel that lends its sample of `channel` to `(x, y)`.
fn donor(channel: u8, x: u32, y: u32) -> (place: (u32, u32))
    requires
        channel < 3,
        x < u32::MAX,
        y < u32::MAX,
    ensures
        place.0 == donor_x(channel as int, x as int, y as int),
        place.1 == donor_y(channel as int, x as int, y as int),
{
    if channel == 0 {
        (x - x % 2 + 1, y - y % 2 + 1)
    } else if channel == 2 {
        (x - x % 2, y - y % 2)
    } else if x % 2 != y % 2 {
        (x, y)
    } else if x % 2 == 0 {
        (x + 1, y)
    } else {
        (x - 1, y)
    }
}

/// Copies the donor's sample of `channel` to `(x, y)`.
fn fill_from_donor(img: &mut FlatSamples<Vec<u8>>, channel: u8, x: u32, y: u32)
    requires
        channel < 3,
        x < u32::MAX,
        y < u32::MAX,
        flat_layout(*old(img)).addressable(
            flat_buffer(*old(img)).len(),
            channel as int,
            x as int,
            y as int,
        ),
        flat_layout(*old(img)).addressable(
            flat_buffer(*old(img)).len(),
            channel as int,
            donor_x(channel as int, x as int, y as int),
            donor_y(channel as int, x as int, y as int),
        ),
    ensures
        flat_layout(*final(img)) == flat_layout(*old(img)),
        flat_color_hint(*final(img)) == flat_color_hint(*old(img)),
        flat_buffer(*final(img)) == fill_sample(
            flat_layout(*old(img)),
            flat_buffer(*old(img)),
            channel as int,
            x as int,
            y as int,
        ),
{
    let (from_x, from_y) = donor(channel, x, y);
    match get_sample(img, channel, from_x, from_y) {
        Some(value) => {
            let _ = set_sample(img, channel, x, y, value);
        },
        None => {},
    }
}

/// Fills in, for every pixel of the first `width` columns and `height` rows,
/// the two channels that the pixel's filter blocked, each with the sample of
/// the nearest pixel that measured the channel.
pub fn nearest_neighbor_demosaicing(img_bayer_flat: FlatSamples<Vec<u8>>, width: u32, height: u32) -> (img_nn_flat:
    FlatSamples<Vec<u8>>)
    requires
        demosaic_ready(
            flat_layout(img_bayer_flat),
            flat_buffer(img_bayer_flat).len(),
            width as int,
            height as int,
        ),
    ensures
        flat_layout(img_nn_flat) == flat_layout(img_bayer_flat),
        flat_color_hint(img_nn_flat) == flat_color_hint(img_bayer_flat),
        flat_buffer(img_nn_flat) == spec_demosaic(
            flat_layout(img_bayer_flat),
            flat_buffer(img_bayer_flat),
            width as nat,
            height as nat,
        ),
        flat_layout(img_bayer_flat).distinct() ==> takes_nearest(
            flat_layout(img_bayer_flat),
            flat_buffer(img_bayer_flat),
            flat_buffer(img_nn_flat),
            width as int,
            height as int,
        ),
{
    let ghost layout = flat_layout(img_bayer_flat);
    let ghost before = flat_buffer(img_bayer_flat);
    let ghost hint = flat_color_hint(img_bayer_flat);
    let mut img = img_bayer_flat;
    let mut x: u32 = 0;
    while x < width
        invariant
            x <= width,
            flat_layout(img) == layout,
            flat_color_hint(img) == hint,
            flat_buffer(img).len() == before.len(),
            demosaic_ready(layout, before.len(), width as int, height as int),
            flat_buffer(img) == fill_columns(layout, before, height as nat, x as nat),
        decreases width - x,
    {
        let mut y: u32 = 0;
        while y < height
            invariant
                x < width,
                y <= height,
                flat_layout(img) == layout,
                flat_color_hint(img) == hint,
                flat_buffer(img).len() == before.len(),
                demosaic_ready(layout, before.len(), width as int, height as int),
                flat_buffer(img) == fill_column(
                    layout,
                    fill_columns(layout, before, height as nat, x as nat),
                    x as int,
                    y as nat,
                ),
            decreases height - y,
        {
            let (lo, hi): (u8, u8) = blocked_channels(color_from_pixel_coord(x, y));
            assert(blocked(width as int, height as int, lo as int, x as int, y as int));
            assert(blocked(width as int, height as int, hi as int, x as int, y as int));
            assert(lo == first_blocked(x as int, y as int));
            assert(hi == second_blocked(x as int, y as int));
            fill_from_donor(&mut img, lo, x, y);
            fill_from_donor(&mut img, hi, x, y);
            y += 1;
        }
        x += 1;
    }
    proof {
        if layout.distinct() {
            lemma_demosaic_takes_nearest(layout, before, width as nat, height as nat);
        }
    }
    img
}

/// Whether every sample that `nearest_neighbor_demosaicing` would read or
/// write has a place in the raster.
fn is_demosaic_ready(img: &FlatSamples<Vec<u8>>, width: u32, height: u32) -> (ready: bool)
    ensures
        ready == demosaic_ready(
            flat_layout(*img),
            flat_buffer(*img).len(),
            width as int,
            height as int,
        ),
{
    let ghost layout = flat_layout(*img);
    let ghost len = flat_buffer(*img).len();
    let mut x: u32 = 0;
    while x < width
        invariant
            x <= width,
            layout == flat_layout(*img),
            len == flat_buffer(*img).len(),
            forall|c: int, a: int, b: int| #[trigger]
                blocked(width as int, height as int, c, a, b) && a < x ==> layout.addressable(
                    len,
                    c,
                    a,
                    b,
                ) && layout.addressable(len, c, donor_x(c, a, b), donor_y(c, a, b)),
        decreases width - x,
    {
        let mut y: u32 = 0;
        while y < height
            invariant
                x < width,
                y <= height,
                layout == flat_layout(*img),
                len == flat_buffer(*img).len(),
                forall|c: int, a: int, b: int| #[trigger]
                    blocked(width as int, height as int, c, a, b) && (a < x || (a == x && b < y))
                        ==> layout.addressable(len, c, a, b) && layout.addressable(
                        len,
                        c,
                        donor_x(c, a, b),
                        donor_y(c, a, b),
                    ),
            decreases height - y,
        {
            let (lo, hi): (u8, u8) = blocked_channels(color_from_pixel_coord(x, y));
            assert(blocked(width as int, height as int, lo as int, x as int, y as int));
            assert(blocked(width as int, height as int, hi as int, x as int, y as int));
            if !has_sample_and_donor(img, lo, x, y) || !has_sample_and_donor(img, hi, x, y) {
                return false;
            }
            y += 1;
        }
        x += 1;
    }
    true
}

/// Whether the sample of `channel` at `(x, y)` and the one that is to replace
/// it both have a place in the raster.
fn has_sample_and_donor(img: &FlatSamples<Vec<u8>>, channel: u8, x: u32, y: u32) -> (found: bool)
    requires
        channel < 3,
    ensures
        found == (flat_layout(*img).addressable(
            flat_buffer(*img).len(),
            channel as int,
            x as int,
            y as int,
        ) && flat_layout(*img).addressable(
            flat_buffer(*img).len(),
            channel as int,
            donor_x(channel as int, x as int, y as int),
            donor_y(channel as int, x as int, y as int),
        )),
{
    if x == u32::MAX || y == u32::MAX {
        // No raster has a column or row beyond the largest index, which is
        // where the donor of such a pixel could lie.
        return false;
    }
    let (from_x, from_y) = donor(channel, x, y);
    get_sample(img, channel, x, y).is_some() && get_sample(img, channel, from_x, from_y).is_some()
}

/// `nearest_neighbor_demosaicing` for any raster: `Ok` with the demosaiced
/// picture where every sample to read or write has a place in the raster,
/// else `Err` with the picture as it came.
pub fn try_nearest_neighbor_demosaicing(
    img_bayer_flat: FlatSamples<Vec<u8>>,
    width: u32,
    height: u32,
) -> (outcome: Result<FlatSamples<Vec<u8>>, FlatSamples<Vec<u8>>>)
    ensures
        outcome is Ok <==> demosaic_ready(
            flat_layout(img_bayer_flat),
            flat_buffer(img_bayer_flat).len(),
            width as int,
            height as int,
        ),
        outcome matches Ok(img_nn_flat) ==> {
            &&& flat_layout(img_nn_flat) == flat_layout(img_bayer_flat)
            &&& flat_color_hint(img_nn_flat) == flat_color_hint(img_bayer_flat)
            &&& flat_buffer(img_nn_flat) == spec_demosaic(
                flat_layout(img_bayer_flat),
                flat_buffer(img_bayer_flat),
                width as nat,
                height as nat,
            )
            &&& flat_layout(img_bayer_flat).distinct() ==> takes_nearest(
                flat_layout(img_bayer_flat),
                flat_buffer(img_bayer_flat),
                flat_buffer(img_nn_flat),
                width as int,
                height as int,
            )
        },
        outcome matches Err(untouched) ==> untouched == img_bayer_flat,
{
    if is_demosaic_ready(&img_bayer_flat, width, height) {
        Ok(nearest_neighbor_demosaicing(img_bayer_flat, width, height))
    } else {
        Err(img_bayer_flat)
    }
}

/// What holds of the buffer `now` once the pixels before column `col`, and
/// before row `row` in column `col`, were filled in a raster without shared
/// positions: their blocked samples hold what the donors held in `before`,
/// and every other position is as it was.
spec fn filled_before(
    layout: RasterLayout,
    before: Seq<u8>,
    now: Seq<u8>,
    width: int,
    height: int,
    col: int,
    row: int,
) -> bool {
    &&& now.len() == before.len()
    &&& forall|c: int, x: int, y: int| #[trigger]
        blocked(width, height, c, x, y) && (x < col || (x == col && y < row)) ==> now[layout.offset(
            c,
            x,
            y,
        )] == before[layout.offset(c, donor_x(c, x, y), donor_y(c, x, y))]
    &&& forall|i: int|
        0 <= i < now.len() && !blocked_before(layout, width, height, col, row, i) ==> #[trigger] now[i]
            == before[i]
}

/// A donor's sample is never itself a blocked one.
proof fn lemma_donor_is_native(width: int, height: int, c: int, x: int, y: int)
    requires
        blocked(width, height, c, x, y),
    ensures
        !blocked(width, height, c, donor_x(c, x, y), donor_y(c, x, y)),
{
}

/// Filling one blocked sample keeps `filled_before`, short of the sample
/// itself, and puts the donor's first value in it.
proof fn lemma_fill_sample(
    layout: RasterLayout,
    before: Seq<u8>,
    now: Seq<u8>,
    width: int,
    height: int,
    c: int,
    x: int,
    y: int,
)
    requires
        layout.distinct(),
        demosaic_ready(layout, before.len(), width, height),
        blocked(width, height, c, x, y),
        now.len() == before.len(),
        forall|i: int|
            0 <= i < now.len() && !blocked_at(layout, width, height, i) ==> #[trigger] now[i]
                == before[i],
    ensures
        fill_sample(layout, now, c, x, y) == now.update(
            layout.offset(c, x, y),
            before[layout.offset(c, donor_x(c, x, y), donor_y(c, x, y))],
        ),
{
    let from = layout.offset(c, donor_x(c, x, y), donor_y(c, x, y));
    lemma_donor_is_native(width, height, c, x, y);
    if blocked_at(layout, width, height, from) {
        let (c2, x2, y2) = choose|c2: int, x2: int, y2: int| #[trigger]
            blocked(width, height, c2, x2, y2) && layout.offset(c2, x2, y2) == from;
        assert(layout.addressable(before.len(), c2, x2, y2));
        assert(false);
    }
}

/// Filling the pixel at `(x, y)` moves `filled_before` on by one pixel.
proof fn lemma_fill_pixel(
    layout: RasterLayout,
    before: Seq<u8>,
    now: Seq<u8>,
    width: int,
    height: int,
    x: int,
    y: int,
)
    requires
        layout.distinct(),
        demosaic_ready(layout, before.len(), width, height),
        0 <= x < width,
        0 <= y < height,
        filled_before(layout, before, now, width, height, x, y),
    ensures
        filled_before(layout, before, fill_pixel(layout, now, x, y), width, height, x, y + 1),
{
    let lo = first_blocked(x, y);
    let hi = second_blocked(x, y);
    assert(blocked(width, height, lo, x, y));
    assert(blocked(width, height, hi, x, y));
    let at_lo = layout.offset(lo, x, y);
    let at_hi = layout.offset(hi, x, y);
    let half = fill_sample(layout, now, lo, x, y);
    let full = fill_pixel(layout, now, x, y);
    assert forall|i: int| 0 <= i < now.len() && !blocked_at(layout, width, height, i) implies #[trigger] now[i]
        == before[i] by {
        if blocked_before(layout, width, height, x, y, i) {
            let (c, a, b) = choose|c: int, a: int, b: int| #[trigger]
                blocked(width, height, c, a, b) && (a < x || (a == x && b < y)) && layout.offset(
                    c,
                    a,
                    b,
                ) == i;
            assert(blocked(width, height, c, a, b) && layout.offset(c, a, b) == i);
        }
    }
    lemma_fill_sample(layout, before, now, width, height, lo, x, y);
    assert forall|i: int| 0 <= i < half.len() && !blocked_at(layout, width, height, i) implies #[trigger] half[i]
        == before[i] by {
        assert(blocked(width, height, lo, x, y) && layout.offset(lo, x, y) == at_lo);
    }
    lemma_fill_sample(layout, before, half, width, height, hi, x, y);
    assert(layout.addressable(before.len(), lo, x, y));
    assert(layout.addressable(before.len(), hi, x, y));
    assert(at_lo != at_hi);
    assert forall|c: int, a: int, b: int| #[trigger]
        blocked(width, height, c, a, b) && (a < x || (a == x && b < y + 1)) implies full[layout.offset(
        c,
        a,
        b,
    )] == before[layout.offset(c, donor_x(c, a, b), donor_y(c, a, b))] by {
        assert(layout.addressable(before.len(), c, a, b));
        if a == x && b == y {
            assert(c == lo || c == hi);
        } else {
            assert(layout.offset(c, a, b) != at_lo);
            assert(layout.offset(c, a, b) != at_hi);
        }
    }
    assert forall|i: int|
        0 <= i < full.len() && !blocked_before(layout, width, height, x, y + 1, i) implies #[trigger] full[i]
        == before[i] by {
        lemma_blocked_step(layout, width, height, x, y, lo, hi, i);
    }
}

/// Filling the first `rows` pixels of column `x` moves `filled_before` from
/// the top of the column to row `rows`.
proof fn lemma_fill_column(
    layout: RasterLayout,
    before: Seq<u8>,
    now: Seq<u8>,
    width: int,
    height: int,
    x: int,
    rows: nat,
)
    requires
        layout.distinct(),
        demosaic_ready(layout, before.len(), width, height),
        0 <= x < width,
        rows <= height,
        filled_before(layout, before, now, width, height, x, 0),
    ensures
        filled_before(layout, before, fill_column(layout, now, x, rows), width, height, x, rows as int),
    decreases rows,
{
    if rows > 0 {
        lemma_fill_column(layout, before, now, width, height, x, (rows - 1) as nat);
        lemma_fill_pixel(
            layout,
            before,
            fill_column(layout, now, x, (rows - 1) as nat),
            width,
            height,
            x,
            rows - 1,
        );
    }
}

/// Filling the first `cols` columns moves `filled_before` from the first
/// pixel to the top of column `cols`.
proof fn lemma_fill_columns(layout: RasterLayout, before: Seq<u8>, width: nat, height: nat, cols: nat)
    requires
        layout.distinct(),
        demosaic_ready(layout, before.len(), width as int, height as int),
        cols <= width,
    ensures
        filled_before(
            layout,
            before,
            fill_columns(layout, before, height, cols),
            width as int,
            height as int,
            cols as int,
            0,
        ),
    decreases cols,
{
    if cols == 0 {
        assert forall|i: int| !blocked_before(layout, width as int, height as int, 0, 0, i) by {
            lemma_blocked_ends(layout, width as int, height as int, i);
        }
    } else {
        let earlier = fill_columns(layout, before, height, (cols - 1) as nat);
        lemma_fill_columns(layout, before, width, height, (cols - 1) as nat);
        lemma_fill_column(layout, before, earlier, width as int, height as int, cols - 1, height);
        let now = fill_column(layout, earlier, cols - 1, height);
        assert forall|i: int|
            0 <= i < now.len() && !blocked_before(
                layout,
                width as int,
                height as int,
                cols as int,
                0,
                i,
            ) implies #[trigger] now[i] == before[i] by {
            lemma_blocked_next_column(layout, width as int, height as int, cols - 1, i);
        }
    }
}

/// In a raster without shared positions the demosaiced picture does not
/// depend on the order of the walk: every blocked sample of the window holds
/// what its donor held in the picture that came in, and every other position
/// of the buffer is unchanged.
pub proof fn lemma_demosaic_takes_nearest(layout: RasterLayout, buffer: Seq<u8>, width: nat, height: nat)
    requires
        layout.distinct(),
        demosaic_ready(layout, buffer.len(), width as int, height as int),
    ensures
        takes_nearest(
            layout,
            buffer,
            spec_demosaic(layout, buffer, width, height),
            width as int,
            height as int,
        ),
{
    lemma_fill_columns(layout, buffer, width, height, width);
    let out = spec_demosaic(layout, buffer, width, height);
    assert forall|i: int|
        0 <= i < buffer.len() && !blocked_at(layout, width as int, height as int, i) implies #[trigger] out[i]
        == buffer[i] by {
        lemma_blocked_ends(layout, width as int, height as int, i);
    }
}

/// In a raster without shared positions the blocked samples of a picture do
/// not matter to its reconstruction: the picture seen through the mosaic
/// demosaics to what the picture itself demosaics to.
pub proof fn lemma_demosaic_of_mosaic(layout: RasterLayout, buffer: Seq<u8>, width: nat, height: nat)
    requires
        layout.distinct(),
        demosaic_ready(layout, buffer.len(), width as int, height as int),
    ensures
        mosaic_ready(layout, buffer.len(), width as int, height as int),
        spec_demosaic(
            layout,
            spec_mosaic(layout, buffer, width as int, height as int),
            width,
            height,
        ) == spec_demosaic(layout, buffer, width, height),
{
    let seen = spec_mosaic(layout, buffer, width as int, height as int);
    let back = spec_demosaic(layout, seen, width, height);
    let direct = spec_demosaic(layout, buffer, width, height);
    lemma_demosaic_takes_nearest(layout, seen, width, height);
    lemma_demosaic_takes_nearest(layout, buffer, width, height);
    assert forall|i: int| 0 <= i < buffer.len() implies back[i] == direct[i] by {
        if blocked_at(layout, width as int, height as int, i) {
            let (c, x, y) = choose|c: int, x: int, y: int| #[trigger]
                blocked(width as int, height as int, c, x, y) && layout.offset(c, x, y) == i;
            lemma_donor_is_native(width as int, height as int, c, x, y);
            lemma_mosaic_samples(
                layout,
                buffer,
                width as int,
                height as int,
                c,
                donor_x(c, x, y),
                donor_y(c, x, y),
            );
        }
    }
    assert(back =~= direct);
}

} // verus!
