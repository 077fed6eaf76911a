//! The index layout that the pieces of a calibration problem share.
//!
//! A problem with `n` images of `m` target points has `4 + 6 n` unknowns, the
//! four camera intrinsics first and then six pose parameters for each image,
//! and `2 n m` residuals, two for each observed point, image after image.

use vstd::arithmetic::div_mod::{lemma_fundamental_div_mod, lemma_fundamental_div_mod_converse};
use vstd::prelude::*;

verus! {

/// How many intrinsics a pinhole camera has: two focal lengths and the two
/// coordinates of the principal point.
pub const INTRINSICS_LEN: usize = 4;

/// How many parameters describe a pose: three for the translation and three
/// for the rotation.
pub const TANGENT_LEN: usize = 6;

/// Why a set of values does not fit the layout.
#[derive(Clone, Copy, Debug, PartialEq, Eq, Structural)]
pub enum LayoutError {
    /// The flat parameter vector is shorter than the intrinsics and the poses
    /// take.
    TooFewParameters,
    /// An image does not have one entry for each target point.
    ObservationCount,
    /// The number of values to lay out does not fit a `usize`.
    TooLarge,
}

/// The length of the flat parameter vector of a problem with `num_images`
/// images.
pub open spec fn param_len(num_images: int) -> int {
    4 + 6 * num_images
}

/// Where the pose parameters of image `image` start in the flat parameter
/// vector.
pub open spec fn tangent_offset(image: int) -> int {
    4 + 6 * image
}

/// The number of residuals of a problem with `num_images` images of
/// `num_points` points.
pub open spec fn residual_len(num_images: int, num_points: int) -> int {
    2 * (num_images * num_points)
}

/// The row of the first of the two residuals of point `point` in image
/// `image`.
pub open spec fn residual_row(image: int, point: int, num_points: int) -> int {
    2 * (image * num_points + point)
}

/// The image that column `col` of the Jacobian belongs to, for a column past
/// the intrinsics.
pub open spec fn column_image(col: int) -> int {
    (col - 4) / 6
}

/// The length of the flat parameter vector for `num_images` images, if it
/// fits a `usize`.
pub fn param_count(num_images: usize) -> (count: Option<usize>)
    ensures
        count is Some <==> param_len(num_images as int) <= usize::MAX,
        count matches Some(len) ==> len == param_len(num_images as int),
{
    match num_images.checked_mul(TANGENT_LEN) {
        Some(poses) => poses.checked_add(INTRINSICS_LEN),
        None => None,
    }
}

/// The number of residuals for `num_images` images of `num_points` points,
/// if it fits a `usize`.
pub fn residual_count(num_images: usize, num_points: usize) -> (count: Option<usize>)
    ensures
        count is Some <==> residual_len(num_images as int, num_points as int) <= usize::MAX,
        count matches Some(len) ==> len == residual_len(num_images as int, num_points as int),
{
    match num_images.checked_mul(num_points) {
        Some(pairs) => pairs.checked_mul(2),
        None => {
            assert(2 * (num_images * num_points) > usize::MAX) by (nonlinear_arith)
                requires
                    num_images * num_points > usize::MAX,
            ;
            None
        },
    }
}

/// Every row of the residual vector belongs to one point of one image: half
/// the row, divided by the number of points, gives the image, and the
/// remainder gives the point.
pub proof fn lemma_row_image(row: int, num_images: int, num_points: int)
    requires
        0 <= row < residual_len(num_images, num_points),
        0 <= num_images,
        0 <= num_points,
    ensures
        0 < num_points,
        0 <= (row / 2) / num_points < num_images,
        0 <= (row / 2) % num_points < num_points,
{
    assert(num_points > 0) by (nonlinear_arith)
        requires
            0 <= row < 2 * (num_images * num_points),
            0 <= num_points,
    ;
    let pair = row / 2;
    assert(0 <= pair < num_images * num_points);
    lemma_fundamental_div_mod(pair, num_points);
    let image = pair / num_points;
    assert(0 <= image < num_images) by (nonlinear_arith)
        requires
            pair == num_points * image + pair % num_points,
            0 <= pair % num_points < num_points,
            0 <= pair < num_images * num_points,
    ;
}

/// The two rows of point `point` in image `image` lie inside the residual
/// vector, and lead back to that image and that point.
pub proof fn lemma_point_rows(image: int, point: int, half: int, num_images: int, num_points: int)
    requires
        0 <= image < num_images,
        0 <= point < num_points,
        0 <= half < 2,
    ensures
        0 <= residual_row(image, point, num_points) + half < residual_len(num_images, num_points),
        ((residual_row(image, point, num_points) + half) / 2) / num_points == image,
        ((residual_row(image, point, num_points) + half) / 2) % num_points == point,
        (residual_row(image, point, num_points) + half) % 2 == half,
{
    let pair = image * num_points + point;
    let row = residual_row(image, point, num_points) + half;
    assert(0 <= pair < num_images * num_points) by (nonlinear_arith)
        requires
            0 <= image < num_images,
            0 <= point < num_points,
            pair == image * num_points + point,
    ;
    lemma_fundamental_div_mod_converse(row, 2, pair, half);
    lemma_fundamental_div_mod_converse(pair, num_points, image, point);
}

/// The pose parameters of different images do not overlap, and all of them
/// lie past the intrinsics and inside the flat parameter vector.
pub proof fn lemma_tangent_columns(image: int, k: int, num_images: int)
    requires
        0 <= image < num_images,
        0 <= k < 6,
    ensures
        4 <= tangent_offset(image) + k < param_len(num_images),
        column_image(tangent_offset(image) + k) == image,
        (tangent_offset(image) + k - 4) % 6 == k,
{
    lemma_fundamental_div_mod_converse(tangent_offset(image) + k - 4, 6, image, k);
}

} // verus!
