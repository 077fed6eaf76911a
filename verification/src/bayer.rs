//! The BGGR colour filter mosaic of a single-sensor camera.

use vstd::prelude::*;

verus! {

/// The colour filter in front of one pixel of a BGGR sensor.
///
/// Every 2x2 patch of the sensor carries the filters
///
/// | B  | G1 |
/// | G2 | R  |
///
/// with blue on even columns of even rows.
#[derive(Clone, Copy, Debug, PartialEq, Eq, Structural)]
pub enum BayerColor {
    Red,
    GreenOne,
    GreenTwo,
    Blue,
}

/// The filter over the pixel in column `x` of row `y`.
pub open spec fn spec_color_from_pixel_coord(x: int, y: int) -> BayerColor {
    if x % 2 == 0 && y % 2 == 0 {
        BayerColor::Blue
    } else if x % 2 == 1 && y % 2 == 0 {
        BayerColor::GreenOne
    } else if x % 2 == 0 && y % 2 == 1 {
        BayerColor::GreenTwo
    } else {
        BayerColor::Red
    }
}

/// The filter over the pixel in column `x` of row `y` of a BGGR sensor.
pub fn color_from_pixel_coord(x: u32, y: u32) -> (color: BayerColor)
    ensures
        color == spec_color_from_pixel_coord(x as int, y as int),
{
    if x % 2 == 0 && y % 2 == 0 {
        BayerColor::Blue
    } else if x % 2 == 1 && y % 2 == 0 {
        BayerColor::GreenOne
    } else if x % 2 == 0 && y % 2 == 1 {
        BayerColor::GreenTwo
    } else {
        BayerColor::Red
    }
}

} // verus!
