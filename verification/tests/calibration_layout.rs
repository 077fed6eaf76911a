use camkit::jacobian::{assemble_jacobian, DenseJacobian, JacobianBlock};
use camkit::layout::{param_count, residual_count, LayoutError, INTRINSICS_LEN, TANGENT_LEN};
use camkit::params::{decode_params, encode_params, Intrinsics, Tangent};
use camkit::residual::{stack_residuals, ResidualPair};
use nalgebra as na;

fn tangent_from(start: f64) -> Tangent<f64> {
    Tangent {
        tx: start,
        ty: start + 1.0,
        tz: start + 2.0,
        wx: start + 3.0,
        wy: start + 4.0,
        wz: start + 5.0,
    }
}

fn block_of(image: usize, point: usize) -> JacobianBlock<f64> {
    let base = (1000 * (image + 1) + 100 * (point + 1)) as f64;
    let mut wrt_intrinsics = [[0.0; 4]; 2];
    let mut wrt_pose = [[0.0; 6]; 2];
    for half in 0..2 {
        for k in 0..4 {
            wrt_intrinsics[half][k] = base + (10 * half + k) as f64;
        }
        for k in 0..6 {
            wrt_pose[half][k] = -(base + (10 * half + k) as f64);
        }
    }
    JacobianBlock { wrt_intrinsics, wrt_pose }
}

fn blocks_of(num_images: usize, num_points: usize) -> Vec<Vec<JacobianBlock<f64>>> {
    (0..num_images)
        .map(|image| (0..num_points).map(|point| block_of(image, point)).collect())
        .collect()
}

#[test]
fn layout_constants() {
    assert_eq!(INTRINSICS_LEN, 4);
    assert_eq!(TANGENT_LEN, 6);
}

#[test]
fn param_count_is_four_plus_six_per_image() {
    assert_eq!(param_count(0), Some(4));
    assert_eq!(param_count(1), Some(10));
    assert_eq!(param_count(3), Some(22));
}

#[test]
fn param_count_at_the_edge_of_usize() {
    let most = (usize::MAX - 4) / 6;
    assert_eq!(param_count(most), Some(4 + 6 * most));
    assert_eq!(param_count(most + 1), None);
    assert_eq!(param_count(usize::MAX), None);
}

#[test]
fn residual_count_is_two_per_point_and_image() {
    assert_eq!(residual_count(3, 121), Some(726));
    assert_eq!(residual_count(0, 121), Some(0));
    assert_eq!(residual_count(3, 0), Some(0));
    assert_eq!(residual_count(1, 1), Some(2));
}

#[test]
fn residual_count_at_the_edge_of_usize() {
    assert_eq!(residual_count(usize::MAX / 2, 1), Some(usize::MAX - 1));
    assert_eq!(residual_count(usize::MAX / 2 + 1, 1), None);
    assert_eq!(residual_count(usize::MAX, usize::MAX), None);
    assert_eq!(residual_count(usize::MAX, 0), Some(0));
}

#[test]
fn encode_lays_out_intrinsics_then_poses() {
    let intrinsics = Intrinsics { fx: 540.0, fy: 541.0, cx: 320.0, cy: 240.0 };
    let tangents = vec![tangent_from(10.0), tangent_from(20.0), tangent_from(30.0)];
    let params = encode_params(&intrinsics, &tangents).unwrap();
    assert_eq!(
        params,
        vec![
            540.0, 541.0, 320.0, 240.0, 10.0, 11.0, 12.0, 13.0, 14.0, 15.0, 20.0, 21.0, 22.0, 23.0,
            24.0, 25.0, 30.0, 31.0, 32.0, 33.0, 34.0, 35.0,
        ]
    );
}

#[test]
fn encode_without_images_holds_the_intrinsics() {
    let intrinsics = Intrinsics { fx: 1u8, fy: 2, cx: 3, cy: 4 };
    assert_eq!(encode_params(&intrinsics, &[]), Ok(vec![1, 2, 3, 4]));
}

#[test]
fn decode_reads_each_pose_at_its_offset() {
    let params: Vec<i32> = (0..16).collect();
    let (intrinsics, tangents) = decode_params(&params, 2).unwrap();
    assert_eq!(intrinsics, Intrinsics { fx: 0, fy: 1, cx: 2, cy: 3 });
    assert_eq!(
        tangents,
        vec![
            Tangent { tx: 4, ty: 5, tz: 6, wx: 7, wy: 8, wz: 9 },
            Tangent { tx: 10, ty: 11, tz: 12, wx: 13, wy: 14, wz: 15 },
        ]
    );
}

#[test]
fn decode_gives_back_what_encode_took() {
    let intrinsics = Intrinsics { fx: 1000.0, fy: 1000.5, cx: 500.25, cy: 499.75 };
    let tangents = vec![tangent_from(0.125), tangent_from(-7.5), tangent_from(1e-9), tangent_from(3e7)];
    let params = encode_params(&intrinsics, &tangents).unwrap();
    assert_eq!(params.len(), 4 + 6 * 4);
    let (intrinsics_back, tangents_back) = decode_params(&params, 4).unwrap();
    assert_eq!(intrinsics_back, intrinsics);
    assert_eq!(tangents_back, tangents);
}

#[test]
fn encode_gives_back_what_decode_took() {
    let params: Vec<u64> = (100..122).collect();
    let (intrinsics, tangents) = decode_params(&params, 3).unwrap();
    assert_eq!(encode_params(&intrinsics, &tangents), Ok(params));
}

#[test]
fn decode_refuses_a_short_vector() {
    let params: Vec<f64> = vec![0.0; 15];
    assert_eq!(decode_params(&params, 2), Err(LayoutError::TooFewParameters));
    assert_eq!(decode_params(&params[..3], 0), Err(LayoutError::TooFewParameters));
    assert_eq!(decode_params(&params, usize::MAX), Err(LayoutError::TooFewParameters));
}

#[test]
fn decode_ignores_what_follows_the_last_pose() {
    let params: Vec<i32> = (0..20).collect();
    let (intrinsics, tangents) = decode_params(&params, 1).unwrap();
    assert_eq!(intrinsics, Intrinsics { fx: 0, fy: 1, cx: 2, cy: 3 });
    assert_eq!(tangents, vec![Tangent { tx: 4, ty: 5, tz: 6, wx: 7, wy: 8, wz: 9 }]);
}

#[test]
fn decode_without_images() {
    let params = vec![1.5, 2.5, 3.5, 4.5];
    let (intrinsics, tangents) = decode_params(&params, 0).unwrap();
    assert_eq!(intrinsics, Intrinsics { fx: 1.5, fy: 2.5, cx: 3.5, cy: 4.5 });
    assert!(tangents.is_empty());
}

#[test]
fn residuals_go_image_after_image_point_after_point() {
    let pairs = vec![
        vec![
            ResidualPair { x: 1.0, y: -1.0 },
            ResidualPair { x: 2.0, y: -2.0 },
            ResidualPair { x: 3.0, y: -3.0 },
        ],
        vec![
            ResidualPair { x: 4.0, y: -4.0 },
            ResidualPair { x: 5.0, y: -5.0 },
            ResidualPair { x: 6.0, y: -6.0 },
        ],
    ];
    assert_eq!(
        stack_residuals(&pairs, 3),
        Ok(vec![1.0, -1.0, 2.0, -2.0, 3.0, -3.0, 4.0, -4.0, 5.0, -5.0, 6.0, -6.0])
    );
}

#[test]
fn residual_of_a_point_stands_in_its_two_rows() {
    let num_images = 3;
    let num_points = 5;
    let pairs: Vec<Vec<ResidualPair<i64>>> = (0..num_images)
        .map(|i| (0..num_points).map(|j| ResidualPair { x: 100 * i + j, y: -(100 * i + j) }).collect())
        .collect();
    let residual = stack_residuals(&pairs, num_points as usize).unwrap();
    assert_eq!(residual.len(), 30);
    for i in 0..num_images {
        for j in 0..num_points {
            let row = 2 * (i * num_points + j) as usize;
            assert_eq!(residual[row], 100 * i + j);
            assert_eq!(residual[row + 1], -(100 * i + j));
        }
    }
}

#[test]
fn residuals_of_nothing_are_empty() {
    let none: Vec<Vec<ResidualPair<f64>>> = Vec::new();
    assert_eq!(stack_residuals(&none, 7), Ok(vec![]));
    let no_points: Vec<Vec<ResidualPair<f64>>> = vec![vec![], vec![]];
    assert_eq!(stack_residuals(&no_points, 0), Ok(vec![]));
}

#[test]
fn residuals_refuse_an_image_with_a_missing_point() {
    let pairs = vec![
        vec![ResidualPair { x: 1, y: 1 }, ResidualPair { x: 2, y: 2 }],
        vec![ResidualPair { x: 3, y: 3 }],
    ];
    assert_eq!(stack_residuals(&pairs, 2), Err(LayoutError::ObservationCount));
    assert_eq!(stack_residuals(&pairs, 1), Err(LayoutError::ObservationCount));
}

#[test]
fn jacobian_has_one_row_per_residual_and_one_column_per_parameter() {
    let jacobian = assemble_jacobian(&blocks_of(3, 4), 4, 0.0).unwrap();
    assert_eq!(jacobian.rows, 24);
    assert_eq!(jacobian.cols, 22);
    assert_eq!(jacobian.data.len(), 24 * 22);
}

#[test]
fn jacobian_of_one_point() {
    let blocks = vec![vec![JacobianBlock {
        wrt_intrinsics: [[1, 2, 3, 4], [5, 6, 7, 8]],
        wrt_pose: [[11, 12, 13, 14, 15, 16], [21, 22, 23, 24, 25, 26]],
    }]];
    let jacobian = assemble_jacobian(&blocks, 1, 0).unwrap();
    assert_eq!(
        jacobian,
        DenseJacobian {
            rows: 2,
            cols: 10,
            data: vec![1, 5, 2, 6, 3, 7, 4, 8, 11, 21, 12, 22, 13, 23, 14, 24, 15, 25, 16, 26],
        }
    );
}

#[test]
fn jacobian_places_each_block_and_fills_the_rest() {
    let num_images = 3;
    let num_points = 2;
    let blocks = blocks_of(num_images, num_points);
    let jacobian = assemble_jacobian(&blocks, num_points, 0.0).unwrap();
    for row in 0..jacobian.rows {
        let image = (row / 2) / num_points;
        let point = (row / 2) % num_points;
        let half = row % 2;
        for col in 0..jacobian.cols {
            let entry = jacobian.data[col * jacobian.rows + row];
            let expected = if col < 4 {
                blocks[image][point].wrt_intrinsics[half][col]
            } else if (col - 4) / 6 == image {
                blocks[image][point].wrt_pose[half][(col - 4) % 6]
            } else {
                0.0
            };
            assert_eq!(entry, expected);
        }
    }
}

#[test]
fn jacobian_has_the_given_filler_outside_the_blocks() {
    let jacobian = assemble_jacobian(&blocks_of(2, 1), 1, 7.25).unwrap();
    // the rows of image 0 in the columns of image 1, and the other way round
    for k in 0..6 {
        for half in 0..2 {
            assert_eq!(jacobian.data[(10 + k) * 4 + half], 7.25);
            assert_eq!(jacobian.data[(4 + k) * 4 + 2 + half], 7.25);
        }
    }
}

#[test]
fn jacobian_agrees_with_writing_the_blocks_into_a_matrix() {
    let num_images = 3;
    let num_points = 4;
    let blocks = blocks_of(num_images, num_points);
    let mut expected = na::DMatrix::<f64>::zeros(2 * num_images * num_points, 4 + 6 * num_images);
    let mut row = 0;
    for image in 0..num_images {
        for point in 0..num_points {
            let block = &blocks[image][point];
            let a = &block.wrt_intrinsics;
            let b = &block.wrt_pose;
            expected.fixed_slice_mut::<2, 4>(row, 0).copy_from(&na::Matrix2x4::new(
                a[0][0], a[0][1], a[0][2], a[0][3], a[1][0], a[1][1], a[1][2], a[1][3],
            ));
            expected.fixed_slice_mut::<2, 6>(row, 4 + image * 6).copy_from(&na::Matrix2x6::new(
                b[0][0], b[0][1], b[0][2], b[0][3], b[0][4], b[0][5], b[1][0], b[1][1], b[1][2],
                b[1][3], b[1][4], b[1][5],
            ));
            row += 2;
        }
    }
    let jacobian = assemble_jacobian(&blocks, num_points, 0.0).unwrap();
    let dense = na::DMatrix::from_vec(jacobian.rows, jacobian.cols, jacobian.data);
    assert_eq!(dense, expected);
}

#[test]
fn jacobian_without_points_has_no_rows() {
    let blocks: Vec<Vec<JacobianBlock<f64>>> = vec![vec![], vec![]];
    assert_eq!(
        assemble_jacobian(&blocks, 0, 0.0),
        Ok(DenseJacobian { rows: 0, cols: 16, data: vec![] })
    );
    let none: Vec<Vec<JacobianBlock<f64>>> = Vec::new();
    assert_eq!(
        assemble_jacobian(&none, 5, 0.0),
        Ok(DenseJacobian { rows: 0, cols: 4, data: vec![] })
    );
}

#[test]
fn jacobian_refuses_an_image_with_a_missing_point() {
    let mut blocks = blocks_of(2, 3);
    blocks[1].pop();
    assert_eq!(assemble_jacobian(&blocks, 3, 0.0), Err(LayoutError::ObservationCount));
}

#[test]
fn residual_rows_and_jacobian_rows_name_the_same_point() {
    let num_images = 2;
    let num_points = 3;
    let pairs: Vec<Vec<ResidualPair<f64>>> = (0..num_images)
        .map(|i| {
            (0..num_points)
                .map(|j| ResidualPair {
                    x: block_of(i, j).wrt_intrinsics[0][0],
                    y: block_of(i, j).wrt_intrinsics[1][0],
                })
                .collect()
        })
        .collect();
    let residual = stack_residuals(&pairs, num_points).unwrap();
    let jacobian = assemble_jacobian(&blocks_of(num_images, num_points), num_points, 0.0).unwrap();
    // column 0 of the Jacobian was filled with the values of the residuals
    assert_eq!(&jacobian.data[..jacobian.rows], &residual[..]);
}
