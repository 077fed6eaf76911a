//! Laying out the Jacobian of the reprojection residuals.
//!
//! The derivatives of every observed point arrive as one small block. Here
//! they are placed in the dense matrix of the whole problem, whose rows follow
//! the residuals and whose columns follow the flat parameter vector.

use crate::layout::{
    column_image, lemma_point_rows, lemma_row_image, lemma_tangent_columns, param_count, param_len,
    residual_count, residual_len, residual_row, tangent_offset, LayoutError,
};
use vstd::arithmetic::div_mod::lemma_fundamental_div_mod_converse;
use vstd::prelude::*;

verus! {

/// The derivatives of the two residuals of one observed point: row 0 is the
/// residual along x, row 1 the one along y.
#[derive(Debug, PartialEq)]
pub struct JacobianBlock<T> {
    /// With respect to the intrinsics `fx, fy, cx, cy`.
    pub wrt_intrinsics: [[T; 4]; 2],
    /// With respect to the six pose parameters of the point's image.
    pub wrt_pose: [[T; 6]; 2],
}

/// A dense matrix, stored column after column.
#[derive(Debug, PartialEq)]
pub struct DenseJacobian<T> {
    pub rows: usize,
    pub cols: usize,
    pub data: Vec<T>,
}

impl<T> DenseJacobian<T> {
    /// The entry in row `row` of column `col`.
    pub open spec fn entry(self, row: int, col: int) -> T {
        self.data@[col * self.rows + row]
    }
}

/// Every image has one block for each of the `num_points` target points.
pub open spec fn well_shaped<T>(blocks: Seq<Vec<JacobianBlock<T>>>, num_points: int) -> bool {
    forall|image: int| 0 <= image < blocks.len() ==> (#[trigger] blocks[image]).len() == num_points
}

/// The matrix of a problem of this size can be stored: its two dimensions and
/// its number of entries fit a `usize`.
pub open spec fn jacobian_fits(num_images: int, num_points: int) -> bool {
    &&& residual_len(num_images, num_points) <= usize::MAX
    &&& param_len(num_images) <= usize::MAX
    &&& residual_len(num_images, num_points) * param_len(num_images) <= usize::MAX
}

/// The entry of the Jacobian in row `row` of column `col`.
///
/// The row belongs to one point of one image. In the first four columns
/// stands that point's derivative with respect to the intrinsics, in the six
/// columns of the point's own image its derivative with respect to the pose,
/// and in the columns of every other image `zero`.
pub open spec fn spec_jacobian_entry<T>(
    blocks: Seq<Vec<JacobianBlock<T>>>,
    num_points: int,
    zero: T,
    row: int,
    col: int,
) -> T {
    let image = (row / 2) / num_points;
    let point = (row / 2) % num_points;
    let block = blocks[image][point];
    if col < 4 {
        block.wrt_intrinsics[row % 2][col]
    } else if column_image(col) == image {
        block.wrt_pose[row % 2][(col - 4) % 6]
    } else {
        zero
    }
}

/// Whether every image has `num_points` blocks.
fn has_shape<T>(blocks: &[Vec<JacobianBlock<T>>], num_points: usize) -> (shaped: bool)
    ensures
        shaped == well_shaped(blocks@, num_points as int),
{
    let mut image: usize = 0;
    while image < blocks.len()
        invariant
            image <= blocks.len(),
            forall|i: int| 0 <= i < image ==> (#[trigger] blocks@[i]).len() == num_points,
        decreases blocks.len() - image,
    {
        if blocks[image].len() != num_points {
            return false;
        }
        image += 1;
    }
    true
}

/// The entry of the Jacobian in row `row` of column `col`.
fn jacobian_entry<T: Copy>(
    blocks: &[Vec<JacobianBlock<T>>],
    num_points: usize,
    zero: T,
    row: usize,
    col: usize,
) -> (value: T)
    requires
        well_shaped(blocks@, num_points as int),
        row < residual_len(blocks@.len() as int, num_points as int),
        col < param_len(blocks@.len() as int),
    ensures
        value == spec_jacobian_entry(blocks@, num_points as int, zero, row as int, col as int),
{
    proof {
        lemma_row_image(row as int, blocks@.len() as int, num_points as int);
    }
    let image = (row / 2) / num_points;
    let point = (row / 2) % num_points;
    let block = &blocks[image][point];
    if col < 4 {
        block.wrt_intrinsics[row % 2][col]
    } else if (col - 4) / 6 == image {
        block.wrt_pose[row % 2][(col - 4) % 6]
    } else {
        zero
    }
}

/// Builds the Jacobian of the whole problem from the blocks of its points,
/// `blocks[i][j]` being the block of point `j` in image `i`.
///
/// The matrix has two rows for each point, image after image, and one column
/// for each entry of the flat parameter vector. It is stored column after
/// column. A column that belongs to the pose of one image holds `zero` in the
/// rows of every other image.
pub fn assemble_jacobian<T: Copy>(blocks: &[Vec<JacobianBlock<T>>], num_points: usize, zero: T) -> (outcome:
    Result<DenseJacobian<T>, LayoutError>)
    ensures
        outcome is Ok <==> well_shaped(blocks@, num_points as int) && jacobian_fits(
            blocks@.len() as int,
            num_points as int,
        ),
        outcome matches Ok(jacobian) ==> {
            &&& jacobian.rows == residual_len(blocks@.len() as int, num_points as int)
            &&& jacobian.cols == param_len(blocks@.len() as int)
            &&& jacobian.data@.len() == jacobian.rows * jacobian.cols
            &&& forall|row: int, col: int|
                0 <= row < jacobian.rows && 0 <= col < jacobian.cols ==> #[trigger] jacobian.entry(
                    row,
                    col,
                ) == spec_jacobian_entry(blocks@, num_points as int, zero, row, col)
        },
        outcome matches Err(error) ==> error == if well_shaped(blocks@, num_points as int) {
            LayoutError::TooLarge
        } else {
            LayoutError::ObservationCount
        },
{
    if !has_shape(blocks, num_points) {
        return Err(LayoutError::ObservationCount);
    }
    let rows = match residual_count(blocks.len(), num_points) {
        Some(rows) => rows,
        None => {
            return Err(LayoutError::TooLarge);
        },
    };
    let cols = match param_count(blocks.len()) {
        Some(cols) => cols,
        None => {
            return Err(LayoutError::TooLarge);
        },
    };
    if rows.checked_mul(cols).is_none() {
        return Err(LayoutError::TooLarge);
    }
    let mut data: Vec<T> = Vec::new();
    let mut col: usize = 0;
    while col < cols
        invariant
            col <= cols,
            well_shaped(blocks@, num_points as int),
            rows == residual_len(blocks@.len() as int, num_points as int),
            cols == param_len(blocks@.len() as int),
            data@.len() == col * rows,
            forall|k: int|
                0 <= k < data@.len() ==> #[trigger] data@[k] == spec_jacobian_entry(
                    blocks@,
                    num_points as int,
                    zero,
                    k % (rows as int),
                    k / (rows as int),
                ),
        decreases cols - col,
    {
        let mut row: usize = 0;
        while row < rows
            invariant
                col < cols,
                row <= rows,
                well_shaped(blocks@, num_points as int),
                rows == residual_len(blocks@.len() as int, num_points as int),
                cols == param_len(blocks@.len() as int),
                data@.len() == col * rows + row,
                forall|k: int|
                    0 <= k < data@.len() ==> #[trigger] data@[k] == spec_jacobian_entry(
                        blocks@,
                        num_points as int,
                        zero,
                        k % (rows as int),
                        k / (rows as int),
                    ),
            decreases rows - row,
        {
            let value = jacobian_entry(blocks, num_points, zero, row, col);
            proof {
                lemma_fundamental_div_mod_converse(
                    col * rows + row,
                    rows as int,
                    col as int,
                    row as int,
                );
            }
            data.push(value);
            row += 1;
        }
        proof {
            assert(col * rows + rows == (col + 1) * rows) by (nonlinear_arith);
        }
        col += 1;
    }
    let jacobian = DenseJacobian { rows, cols, data };
    proof {
        assert(cols * rows == rows * cols) by (nonlinear_arith);
        assert forall|row: int, col: int|
            0 <= row < jacobian.rows && 0 <= col < jacobian.cols implies #[trigger] jacobian.entry(
            row,
            col,
        ) == spec_jacobian_entry(blocks@, num_points as int, zero, row, col) by {
            lemma_fundamental_div_mod_converse(col * rows + row, rows as int, col, row);
            assert(0 <= col * rows + row < cols * rows) by (nonlinear_arith)
                requires
                    0 <= row < rows,
                    0 <= col < cols,
            ;
        }
    }
    Ok(jacobian)
}

/// The rows of a point hold that point's block and nothing else: its
/// derivatives with respect to the intrinsics in the first four columns, its
/// derivatives with respect to the pose in the six columns of its own image,
/// and `zero` in the pose columns of every other image.
pub proof fn lemma_jacobian_is_block_sparse<T>(
    blocks: Seq<Vec<JacobianBlock<T>>>,
    num_points: int,
    zero: T,
    image: int,
    point: int,
    half: int,
    other: int,
    k: int,
)
    requires
        0 <= image < blocks.len(),
        0 <= other < blocks.len(),
        0 <= point < num_points,
        0 <= half < 2,
        0 <= k < 6,
    ensures
        ({
            let row = residual_row(image, point, num_points) + half;
            let block = blocks[image][point];
            &&& k < 4 ==> spec_jacobian_entry(blocks, num_points, zero, row, k)
                == block.wrt_intrinsics[half][k]
            &&& spec_jacobian_entry(blocks, num_points, zero, row, tangent_offset(image) + k)
                == block.wrt_pose[half][k]
            &&& other != image ==> spec_jacobian_entry(
                blocks,
                num_points,
                zero,
                row,
                tangent_offset(other) + k,
            ) == zero
        }),
{
    lemma_point_rows(image, point, half, blocks.len() as int, num_points);
    lemma_tangent_columns(image, k, blocks.len() as int);
    lemma_tangent_columns(other, k, blocks.len() as int);
}

} // verus!
