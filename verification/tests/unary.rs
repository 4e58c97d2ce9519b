use matmul::datum::{dup_shape, DatumType, TensorInfo};
use matmul::error::MatMulError;
use matmul::unary::{
    to_dims, MatMulUnaryA, MatMulUnaryB, PulsedTensorFact, TranslationInvariant, UnaryAImpl,
};

fn constant(shape: &[usize]) -> TensorInfo<usize> {
    TensorInfo { datum_type: DatumType::F32, shape: shape.to_vec() }
}

fn pulse(shape: &[usize], axis: usize, dim: usize) -> PulsedTensorFact<usize> {
    PulsedTensorFact { datum_type: DatumType::F32, shape: shape.to_vec(), axis, dim, delay: 3 }
}

#[test]
fn codegen_collapses_against_a_matrix() {
    let op = MatMulUnaryA::new(constant(&[4, 5]));
    match op.codegen::<f32>(&[2, 3, 4], 24).unwrap() {
        Some(UnaryAImpl::SimpleB(chosen)) => {
            assert_eq!((chosen.geo.m, chosen.geo.k, chosen.geo.n), (6, 4, 5));
            assert_eq!(chosen.c_shape, vec![2, 3, 5]);
            assert!(chosen.non_linear.is_empty());
        }
        other => panic!("chose {:?}", other),
    }
}

#[test]
fn codegen_packs_each_matrix_of_any_other_constant() {
    let op = MatMulUnaryA::new(constant(&[7, 4, 5]));
    match op.codegen::<f32>(&[2, 1, 3, 4], 24).unwrap() {
        Some(UnaryAImpl::General(chosen)) => {
            assert_eq!(chosen.geo.c_shape, vec![2, 7, 3, 5]);
            assert_eq!(chosen.packed_bs_shape, vec![1, 7, 24]);
            assert_eq!(chosen.packing.len(), 7);
        }
        other => panic!("chose {:?}", other),
    }
    let op = MatMulUnaryA::new(constant(&[4]));
    match op.codegen::<f32>(&[3, 4], 8).unwrap() {
        Some(UnaryAImpl::General(chosen)) => assert_eq!(chosen.geo.c_shape, vec![3, 1]),
        other => panic!("chose {:?}", other),
    }
}

#[test]
fn codegen_fails_on_shapes_that_do_not_multiply() {
    let op = MatMulUnaryA::new(constant(&[4, 5]));
    assert_eq!(op.codegen::<f32>(&[2, 3], 24).err(), Some(MatMulError::Shape));
    let op = MatMulUnaryA::new(constant(&[2, 4, 5]));
    assert_eq!(op.codegen::<f32>(&[3, 2, 4], 24).err(), Some(MatMulError::Shape));
    let big = 1usize << (usize::BITS / 2);
    let op = MatMulUnaryA::new(constant(&[big, 1, 1]));
    assert_eq!(op.codegen::<f32>(&[1, 1], big).err(), Some(MatMulError::Allocation));
}

#[test]
fn pulsify_rejects_the_innermost_axis() {
    let op = MatMulUnaryA::new(constant(&[4, 5]));
    assert_eq!(op.pulsify(&pulse(&[8, 3, 4], 2, 100)).err(), Some(MatMulError::Pulsify));
    assert_eq!(op.pulsify(&pulse(&[8, 3, 4], 3, 100)).err(), Some(MatMulError::Pulsify));
    assert_eq!(op.pulsify(&pulse(&[4], 0, 100)).err(), Some(MatMulError::Pulsify));
    assert_eq!(op.pulsify(&pulse(&[], 0, 100)).err(), Some(MatMulError::Pulsify));
    // Even where the shapes would not multiply.
    assert_eq!(op.pulsify(&pulse(&[8, 3, 7], 2, 100)).err(), Some(MatMulError::Pulsify));
}

#[test]
fn pulsify_infers_the_pulse_and_the_stream() {
    let op = MatMulUnaryA::new(constant(&[4, 5]));
    let out = op.pulsify(&pulse(&[8, 3, 4], 0, 100)).unwrap();
    assert_eq!(out.shape, vec![8, 3, 5]);
    assert_eq!(out.dim, 100);
    assert_eq!((out.axis, out.delay, out.datum_type), (0, 3, DatumType::F32));
    // Streaming along the rows.
    let out = op.pulsify(&pulse(&[8, 3, 4], 1, 77)).unwrap();
    assert_eq!(out.shape, vec![8, 3, 5]);
    assert_eq!(out.dim, 77);
}

#[test]
fn pulsify_checks_both_shapes() {
    let op = MatMulUnaryA::new(constant(&[6, 4, 5]));
    assert_eq!(op.pulsify(&pulse(&[8, 3, 7], 0, 100)).err(), Some(MatMulError::Shape));
    // The pulse broadcasts against the constant, the whole stream does not.
    assert_eq!(op.pulsify(&pulse(&[1, 3, 4], 0, 100)).err(), Some(MatMulError::Shape));
    let out = op.pulsify(&pulse(&[1, 3, 4], 0, 6)).unwrap();
    assert_eq!(out.shape, vec![6, 3, 5]);
    assert_eq!(out.dim, 6);
}

#[test]
fn streaming_shape_has_the_stream_on_its_axis() {
    assert_eq!(pulse(&[8, 3, 4], 1, 100).streaming_shape(), vec![8, 100, 4]);
    assert_eq!(pulse(&[8, 3, 4], 5, 100).streaming_shape(), vec![8, 3, 4]);
    assert_eq!(to_dims::<usize>(&vec![2, 3]), vec![2, 3]);
    assert_eq!(dup_shape(&vec![2usize, 3]), vec![2, 3]);
}

#[test]
fn translation_invariants_follow_the_constant() {
    let inv = |axis, period| TranslationInvariant { axis, period };
    let op = MatMulUnaryA::new(constant(&[7, 4, 5]));
    assert_eq!(op.translation_invariants(4), vec![inv(0, 1), inv(1, 7), inv(2, 1)]);
    assert_eq!(op.translation_invariants(3), vec![inv(0, 7), inv(1, 1)]);
    assert_eq!(op.translation_invariants(2), vec![]);
    let op = MatMulUnaryA::new(constant(&[4, 5]));
    assert_eq!(op.translation_invariants(2), vec![inv(0, 1)]);
    assert_eq!(op.translation_invariants(4), vec![inv(0, 1), inv(1, 1), inv(2, 1)]);
    let op = MatMulUnaryA::new(constant(&[3, 1, 4, 5]));
    assert_eq!(op.translation_invariants(4), vec![inv(0, 3), inv(1, 1), inv(2, 1)]);
}

#[test]
fn unary_a_evaluates_against_its_constant() {
    let op = MatMulUnaryA::new(constant(&[4, 5]));
    let ev = op.eval(&constant(&[2, 3, 4])).unwrap();
    assert_eq!(ev.plan.geo.c_shape, vec![2, 3, 5]);
    assert_eq!(ev.plan.cells.len(), 2);
    assert_eq!(op.eval(&constant(&[2, 3, 3])).err(), Some(MatMulError::Shape));
    let ints = TensorInfo { datum_type: DatumType::I32, shape: vec![2usize, 3, 4] };
    assert_eq!(op.eval(&ints).err(), Some(MatMulError::TypeMismatch));
    assert_eq!(op.name(), "MatMulUnaryA");
}

#[test]
fn unary_b_evaluates_against_its_constant() {
    let op = MatMulUnaryB::new(constant(&[2, 3, 4]));
    let ev = op.eval(&constant(&[4, 5])).unwrap();
    assert_eq!(ev.plan.geo.c_shape, vec![2, 3, 5]);
    assert_eq!(ev.plan.geo.a_shape, vec![2, 3, 4]);
    assert_eq!(ev.datum_type, DatumType::F32);
    assert_eq!(op.eval(&constant(&[5, 5])).err(), Some(MatMulError::Shape));
    let doubles = TensorInfo { datum_type: DatumType::F64, shape: vec![4usize, 5] };
    assert_eq!(op.eval(&doubles).err(), Some(MatMulError::TypeMismatch));
    assert_eq!(op.name(), "MatMulUnaryB");
}
