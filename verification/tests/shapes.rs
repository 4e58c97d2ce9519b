use matmul::error::MatMulError;
use matmul::geo::{leading, Geo};
use matmul::index::clamped_position;
use matmul::infer::{infer_shapes, multi_broadcast};
use matmul::shape::{batch_strides, checked_volume, element_count};

#[test]
fn infer_plain_matrices() {
    let (a, b, c) = infer_shapes(vec![2usize, 3], vec![3usize, 4]).unwrap();
    assert_eq!(a, vec![2, 3]);
    assert_eq!(b, vec![3, 4]);
    assert_eq!(c, vec![2, 4]);
}

#[test]
fn infer_rejects_k_mismatch() {
    assert_eq!(infer_shapes(vec![2usize, 3], vec![4usize, 5]), Err(MatMulError::Shape));
}

#[test]
fn infer_treats_vectors_as_row_and_column() {
    let (a, b, c) = infer_shapes(vec![3usize], vec![3usize]).unwrap();
    assert_eq!(a, vec![1, 3]);
    assert_eq!(b, vec![3, 1]);
    assert_eq!(c, vec![1, 1]);
}

#[test]
fn infer_pads_the_lower_rank_on_the_left() {
    let (a, b, c) = infer_shapes(vec![2usize, 3, 4], vec![4usize, 5]).unwrap();
    assert_eq!(a, vec![2, 3, 4]);
    assert_eq!(b, vec![1, 4, 5]);
    assert_eq!(c, vec![2, 3, 5]);
    let (a, b, c) = infer_shapes(vec![3usize, 4], vec![7usize, 2, 4, 5]).unwrap();
    assert_eq!(a, vec![1, 1, 3, 4]);
    assert_eq!(b, vec![7, 2, 4, 5]);
    assert_eq!(c, vec![7, 2, 3, 5]);
}

#[test]
fn infer_broadcasts_the_batch_prefix() {
    let (a, b, c) = infer_shapes(vec![3usize, 1, 2, 2], vec![1usize, 4, 2, 2]).unwrap();
    assert_eq!(a, vec![3, 1, 2, 2]);
    assert_eq!(b, vec![1, 4, 2, 2]);
    assert_eq!(c, vec![3, 4, 2, 2]);
}

#[test]
fn infer_rejects_prefixes_that_do_not_broadcast() {
    assert_eq!(infer_shapes(vec![2usize, 2, 2], vec![3usize, 2, 2]), Err(MatMulError::Shape));
}

#[test]
fn infer_rejects_two_scalars() {
    assert_eq!(infer_shapes(Vec::<usize>::new(), Vec::<usize>::new()), Err(MatMulError::Shape));
}

#[test]
fn infer_scalar_against_matrix() {
    let (a, b, c) = infer_shapes(Vec::<usize>::new(), vec![1usize, 4]).unwrap();
    assert_eq!(a, vec![1, 1]);
    assert_eq!(b, vec![1, 4]);
    assert_eq!(c, vec![1, 4]);
    assert_eq!(infer_shapes(Vec::<usize>::new(), vec![3usize, 4]), Err(MatMulError::Shape));
    assert_eq!(infer_shapes(vec![5usize], Vec::<usize>::new()), Err(MatMulError::Shape));
    let (a, b, c) = infer_shapes(vec![1usize], Vec::<usize>::new()).unwrap();
    assert_eq!((a, b, c), (vec![1, 1], vec![1, 1], vec![1, 1]));
}

#[test]
fn infer_keeps_an_empty_axis_against_a_unit_axis() {
    let (_, _, c) = infer_shapes(vec![0usize, 2, 3], vec![1usize, 3, 4]).unwrap();
    assert_eq!(c, vec![0, 2, 4]);
    let (_, _, c) = infer_shapes(vec![1usize, 2, 3], vec![0usize, 3, 4]).unwrap();
    assert_eq!(c, vec![0, 2, 4]);
}

#[test]
fn multi_broadcast_takes_the_dimension_that_is_not_one() {
    let x: Vec<usize> = vec![3, 1, 5, 7];
    let y: Vec<usize> = vec![1, 4, 5, 9];
    assert_eq!(multi_broadcast(&x, &y, 3), Some(vec![3, 4, 5]));
    assert_eq!(multi_broadcast(&x, &y, 0), Some(vec![]));
    assert_eq!(multi_broadcast(&x, &y, 4), None);
}

#[test]
fn volume_counts_only_the_axes_that_are_not_empty() {
    assert_eq!(checked_volume(&vec![2, 3]), Some(6));
    assert_eq!(checked_volume(&vec![]), Some(1));
    assert_eq!(checked_volume(&vec![0, 5]), Some(5));
    assert_eq!(checked_volume(&vec![4, 0, 5]), Some(20));
}

#[test]
fn volume_is_bounded_by_the_largest_signed_offset() {
    let limit = isize::MAX as usize;
    assert_eq!(checked_volume(&vec![limit]), Some(limit));
    assert_eq!(checked_volume(&vec![limit, 1, 1]), Some(limit));
    assert_eq!(checked_volume(&vec![limit + 1]), None);
    assert_eq!(checked_volume(&vec![limit, 2]), None);
    assert_eq!(checked_volume(&vec![limit, 0, 2]), None);
    assert_eq!(checked_volume(&vec![usize::MAX, usize::MAX]), None);
}

#[test]
fn element_count_is_the_product_of_the_extents() {
    assert_eq!(element_count(&vec![2, 3, 4]), 24);
    assert_eq!(element_count(&vec![]), 1);
    assert_eq!(element_count(&vec![2, 0, 4]), 0);
}

#[test]
fn batch_strides_start_at_the_innermost_batch_axis() {
    assert_eq!(batch_strides(&vec![2, 3, 4, 5]), vec![20, 60]);
    assert_eq!(batch_strides(&vec![4, 5]), Vec::<usize>::new());
    assert_eq!(batch_strides(&vec![7, 4, 5]), vec![20]);
    assert_eq!(batch_strides(&vec![2, 3, 1, 1, 5]), vec![5, 5, 15]);
}

#[test]
fn leading_copies_a_prefix() {
    assert_eq!(leading(&vec![2, 3, 4], 2), vec![2, 3]);
    assert_eq!(leading(&vec![2, 3, 4], 0), Vec::<usize>::new());
}

#[test]
fn clamped_position_reads_unit_axes_at_zero() {
    // cell (2, 3) of a batch of shape (3, 4), against an operand of shape
    // (3, 1, m, k): the operand is read at its cell (2, 0).
    assert_eq!(clamped_position(&vec![3, 1, 2, 2], &vec![2, 3]), 2);
    assert_eq!(clamped_position(&vec![1, 4, 2, 2], &vec![2, 3]), 3);
    assert_eq!(clamped_position(&vec![3, 4, 2, 2], &vec![2, 3]), 11);
    assert_eq!(clamped_position(&vec![3, 4, 2, 2], &vec![]), 0);
}

#[test]
fn geometry_of_a_batched_product() {
    let geo = Geo::new(&[3, 1, 2, 5], &[4, 5, 7]).unwrap();
    assert_eq!((geo.m, geo.k, geo.n), (2, 5, 7));
    assert_eq!(geo.a_shape, vec![3, 1, 2, 5]);
    assert_eq!(geo.b_shape, vec![4, 5, 7]);
    assert_eq!(geo.bc_a_shape, vec![3, 1, 2, 5]);
    assert_eq!(geo.bc_b_shape, vec![1, 4, 5, 7]);
    assert_eq!(geo.c_shape, vec![3, 4, 2, 7]);
    assert_eq!(geo.c_shape_prefix, vec![3, 4]);
    assert_eq!(geo.a_stride_prefix, vec![10, 10]);
    assert_eq!(geo.b_stride_prefix, vec![35, 140]);
    assert_eq!(geo.c_stride_prefix, vec![14, 56]);
}

#[test]
fn geometry_of_two_vectors() {
    let geo = Geo::new(&[3], &[3]).unwrap();
    assert_eq!((geo.m, geo.k, geo.n), (1, 3, 1));
    assert_eq!(geo.c_shape, vec![1, 1]);
    assert_eq!(geo.c_shape_prefix, Vec::<usize>::new());
    assert_eq!(geo.a_stride_prefix, Vec::<usize>::new());
}

#[test]
fn geometry_fails_on_shapes_that_do_not_multiply() {
    assert_eq!(Geo::new(&[2, 3], &[4, 5]).err(), Some(MatMulError::Shape));
    assert_eq!(Geo::new(&[2, 2, 3], &[3, 3, 5]).err(), Some(MatMulError::Shape));
    assert_eq!(Geo::new(&[], &[]).err(), Some(MatMulError::Shape));
}

#[test]
fn geometry_fails_on_a_result_too_large_to_allocate() {
    let big = 1usize << (usize::BITS / 2);
    // Both operands can be allocated, the result cannot.
    assert_eq!(Geo::new(&[big, 1], &[1, big]).err(), Some(MatMulError::Allocation));
    assert_eq!(Geo::new(&[big, 1, 1, 1], &[big, 1, 1]).err(), Some(MatMulError::Allocation));
    // A shape error comes first.
    assert_eq!(Geo::new(&[big, 2], &[1, big]).err(), Some(MatMulError::Shape));
    assert!(Geo::new(&[big, 1], &[1, 4]).is_ok());
}

#[test]
fn geometry_copy_is_the_same_geometry() {
    let geo = Geo::new(&[3, 1, 2, 5], &[4, 5, 7]).unwrap();
    let copy = geo.dup();
    assert_eq!((copy.m, copy.k, copy.n), (geo.m, geo.k, geo.n));
    assert_eq!(copy.bc_b_shape, geo.bc_b_shape);
    assert_eq!(copy.c_shape, geo.c_shape);
    assert_eq!(copy.c_stride_prefix, geo.c_stride_prefix);
}

#[test]
fn error_messages_name_the_fault() {
    assert_eq!(
        MatMulError::Pulsify.message(),
        "Can not pulsify MatMulUnaryA on the most inner dimension (k)"
    );
    assert_eq!(MatMulError::Shape.message(), "operand shapes can not be multiplied");
    assert_ne!(MatMulError::Arity.message(), MatMulError::TypeMismatch.message());
    assert_ne!(MatMulError::Allocation.message(), MatMulError::MmmUnavailable.message());
}
