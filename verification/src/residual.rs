//! Laying out the reprojection residuals.

use crate::layout::{lemma_point_rows, lemma_row_image, residual_count, residual_len, residual_row, LayoutError};
use vstd::prelude::*;

verus! {

/// The reprojection error of one observed point: the projected pixel minus
/// the observed one, along x and along y.
#[derive(Debug, PartialEq)]
pub struct ResidualPair<T> {
    pub x: T,
    pub y: T,
}

/// Every image has one residual pair for each of the `num_points` target
/// points.
pub open spec fn well_paired<T>(pairs: Seq<Vec<ResidualPair<T>>>, num_points: int) -> bool {
    forall|image: int| 0 <= image < pairs.len() ==> (#[trigger] pairs[image]).len() == num_points
}

/// The entry of the residual vector in row `row`: the rows go through the
/// images one after the other, through the points of each image in their
/// order, and hold for each point first its error along x, then the one
/// along y.
pub open spec fn spec_residual_entry<T>(pairs: Seq<Vec<ResidualPair<T>>>, num_points: int, row: int) -> T {
    let pair = pairs[(row / 2) / num_points][(row / 2) % num_points];
    if row % 2 == 0 {
        pair.x
    } else {
        pair.y
    }
}

/// Whether every image has `num_points` residual pairs.
fn is_paired<T>(pairs: &[Vec<ResidualPair<T>>], num_points: usize) -> (paired: bool)
    ensures
        paired == well_paired(pairs@, num_points as int),
{
    let mut image: usize = 0;
    while image < pairs.len()
        invariant
            image <= pairs.len(),
            forall|i: int| 0 <= i < image ==> (#[trigger] pairs@[i]).len() == num_points,
        decreases pairs.len() - image,
    {
        if pairs[image].len() != num_points {
            return false;
        }
        image += 1;
    }
    true
}

/// Stacks the residual pairs of all points into the residual vector of the
/// problem, `pairs[i][j]` being the pair of point `j` in image `i`.
///
/// The pair of point `j` in image `i` comes to stand in the rows
/// `2 (i m + j)` and `2 (i m + j) + 1`, where `m` is `num_points`.
pub fn stack_residuals<T: Copy>(pairs: &[Vec<ResidualPair<T>>], num_points: usize) -> (outcome: Result<
    Vec<T>,
    LayoutError,
>)
    ensures
        outcome is Ok <==> well_paired(pairs@, num_points as int) && residual_len(
            pairs@.len() as int,
            num_points as int,
        ) <= usize::MAX,
        outcome matches Ok(residual) ==> {
            &&& residual@.len() == residual_len(pairs@.len() as int, num_points as int)
            &&& forall|row: int|
                0 <= row < residual@.len() ==> #[trigger] residual@[row] == spec_residual_entry(
                    pairs@,
                    num_points as int,
                    row,
                )
        },
        outcome matches Err(error) ==> error == if well_paired(pairs@, num_points as int) {
            LayoutError::TooLarge
        } else {
            LayoutError::ObservationCount
        },
{
    if !is_paired(pairs, num_points) {
        return Err(LayoutError::ObservationCount);
    }
    let rows = match residual_count(pairs.len(), num_points) {
        Some(rows) => rows,
        None => {
            return Err(LayoutError::TooLarge);
        },
    };
    let mut residual: Vec<T> = Vec::new();
    let mut row: usize = 0;
    while row < rows
        invariant
            row <= rows,
            well_paired(pairs@, num_points as int),
            rows == residual_len(pairs@.len() as int, num_points as int),
            residual@.len() == row,
            forall|k: int|
                0 <= k < row ==> #[trigger] residual@[k] == spec_residual_entry(
                    pairs@,
                    num_points as int,
                    k,
                ),
        decreases rows - row,
    {
        proof {
            lemma_row_image(row as int, pairs@.len() as int, num_points as int);
        }
        let pair = &pairs[(row / 2) / num_points][(row / 2) % num_points];
        let value = if row % 2 == 0 {
            pair.x
        } else {
            pair.y
        };
        residual.push(value);
        row += 1;
    }
    Ok(residual)
}

/// The two rows of a point hold that point's residual pair.
pub proof fn lemma_residual_rows<T>(pairs: Seq<Vec<ResidualPair<T>>>, num_points: int, image: int, point: int)
    requires
        0 <= image < pairs.len(),
        0 <= point < num_points,
    ensures
        spec_residual_entry(pairs, num_points, residual_row(image, point, num_points))
            == pairs[image][point].x,
        spec_residual_entry(pairs, num_points, residual_row(image, point, num_points) + 1)
            == pairs[image][point].y,
{
    lemma_point_rows(image, point, 0, pairs.len() as int, num_points);
    lemma_point_rows(image, point, 1, pairs.len() as int, num_points);
}

} // verus!
