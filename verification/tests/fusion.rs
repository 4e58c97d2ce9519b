use matmul::error::MatMulError;
use matmul::post_op::{copy_values, dup_post_ops, BinaryOp, PostOp, Successor};
use matmul::simple_b::MatMulUnaryImplASimpleB;

fn product(op: &MatMulUnaryImplASimpleB<f32>, a: &[f32], b: &[f32]) -> Vec<f32> {
    let run = op.eval();
    let (m, k, n) = (op.geo.m, op.geo.k, op.geo.n);
    let mut c = vec![f32::NAN; m * n];
    for i in 0..m {
        for j in 0..n {
            let mut x = 0f32;
            for l in 0..k {
                x += a[run.a.offset + i * run.a.row_stride as usize + l]
                    * b[run.b.offset + l * run.b.row_stride as usize + j];
            }
            for post in &op.non_linear {
                x = match post {
                    PostOp::PerColMul(v) => x * v[j],
                    PostOp::PerColAdd(v) => x + v[j],
                    PostOp::Max(s) => x.max(*s),
                    PostOp::Min(s) => x.min(*s),
                };
            }
            c[run.c.offset + i * run.c.row_stride as usize + j] = x;
        }
    }
    c
}

fn per_column(op: BinaryOp, values: &[f32]) -> Successor<f32> {
    Successor::Binary { op, b_shape: vec![values.len()], b: Some(values.to_vec()) }
}

#[test]
fn fusion_per_col_mul() {
    let a = [1f32, 2., 3., 4.];
    let b = [1f32, 0., 2., 0., 1., 3.];
    let v = [2f32, 3., 5.];
    let op = MatMulUnaryImplASimpleB::<f32>::new(&[2, 2], &[2, 3]).unwrap();
    let unfused = product(&op, &a, &b);
    assert_eq!(unfused, vec![1., 2., 8., 3., 4., 18.]);
    let fused = op.fuse(&vec![per_column(BinaryOp::Mul, &v)]).unwrap().unwrap();
    assert_eq!(fused.non_linear, vec![PostOp::PerColMul(v.to_vec())]);
    assert_eq!(fused.geo, op.geo);
    assert_eq!(fused.a_shape, op.a_shape);
    assert_eq!(fused.c_shape, op.c_shape);
    let expected: Vec<f32> = unfused.iter().enumerate().map(|(i, x)| x * v[i % 3]).collect();
    assert_eq!(product(&fused, &a, &b), expected);
    assert_eq!(expected, vec![2., 6., 40., 6., 12., 90.]);
}

#[test]
fn fusion_per_col_add() {
    let a = [1f32, 2., 3., 4.];
    let b = [1f32, 0., 2., 0., 1., 3.];
    let v = [10f32, 20., 30.];
    let op = MatMulUnaryImplASimpleB::<f32>::new(&[2, 2], &[2, 3]).unwrap();
    let fused = op.fuse(&vec![per_column(BinaryOp::Add, &v)]).unwrap().unwrap();
    assert_eq!(fused.non_linear, vec![PostOp::PerColAdd(v.to_vec())]);
    assert_eq!(product(&fused, &a, &b), vec![11., 22., 38., 13., 24., 48.]);
}

#[test]
fn fusion_clamp() {
    let a = [1f32, -2., 0.5, 0.25];
    let b = [1f32, 0., 0., 1.];
    let op = MatMulUnaryImplASimpleB::<f32>::new(&[2, 2], &[2, 2]).unwrap();
    let fused = op.fuse(&vec![Successor::ScalarMinMax { lo: 0., hi: 1. }]).unwrap().unwrap();
    assert_eq!(fused.non_linear, vec![PostOp::Min(1.), PostOp::Max(0.)]);
    let clamped: Vec<f32> = product(&op, &a, &b).iter().map(|x| x.max(0.).min(1.)).collect();
    assert_eq!(product(&fused, &a, &b), clamped);
    assert_eq!(clamped, vec![1., 0., 0.5, 0.25]);
}

#[test]
fn fusion_scalar_max_and_min() {
    let op = MatMulUnaryImplASimpleB::<f32>::new(&[2, 2], &[2, 2]).unwrap();
    let fused = op.fuse(&vec![Successor::ScalarMax(0.5)]).unwrap().unwrap();
    assert_eq!(fused.non_linear, vec![PostOp::Max(0.5)]);
    let fused = op.fuse(&vec![Successor::ScalarMin(-1.5)]).unwrap().unwrap();
    assert_eq!(fused.non_linear, vec![PostOp::Min(-1.5)]);
    let a = [1f32, -2., 0.5, 0.25];
    let b = [1f32, 0., 0., 1.];
    assert_eq!(product(&fused, &a, &b), vec![-1.5, -2., -1.5, -1.5]);
}

#[test]
fn fusion_appends_in_order() {
    let v = [2f32, 3.];
    let op = MatMulUnaryImplASimpleB::<f32>::new(&[2, 2], &[2, 2]).unwrap();
    let op = op.fuse(&vec![per_column(BinaryOp::Add, &v)]).unwrap().unwrap();
    let op = op.fuse(&vec![Successor::ScalarMinMax { lo: -1., hi: 4. }]).unwrap().unwrap();
    let op = op.fuse(&vec![per_column(BinaryOp::Mul, &v)]).unwrap().unwrap();
    assert_eq!(
        op.non_linear,
        vec![
            PostOp::PerColAdd(v.to_vec()),
            PostOp::Min(4.),
            PostOp::Max(-1.),
            PostOp::PerColMul(v.to_vec()),
        ]
    );
    let a = [1f32, 2., 3., 4.];
    let b = [1f32, 0., 0., -1.];
    // (a.b + v) clamped to [-1, 4], times v
    assert_eq!(product(&op, &a, &b), vec![6., 3., 8., -3.]);
    assert_eq!(
        op.info("k"),
        vec!["k", " + PerColAdd", " + Min", " + Max", " + PerColMul"]
    );
}

#[test]
fn fusion_needs_exactly_one_successor() {
    let op = MatMulUnaryImplASimpleB::<f32>::new(&[2, 2], &[2, 2]).unwrap();
    assert_eq!(op.fuse(&vec![]), Ok(None));
    assert_eq!(op.fuse(&vec![Successor::ScalarMax(0.), Successor::ScalarMax(0.)]), Ok(None));
}

#[test]
fn fusion_leaves_other_successors_alone() {
    let op = MatMulUnaryImplASimpleB::<f32>::new(&[2, 2], &[2, 3]).unwrap();
    assert_eq!(op.fuse(&vec![Successor::Other]), Ok(None));
    // Neither a product nor a sum.
    assert_eq!(op.fuse(&vec![per_column(BinaryOp::Other, &[1., 2., 3.])]), Ok(None));
    // Not one entry for each column.
    assert_eq!(op.fuse(&vec![per_column(BinaryOp::Mul, &[1., 2.])]), Ok(None));
    let matrix = Successor::Binary {
        op: BinaryOp::Add,
        b_shape: vec![1, 3],
        b: Some(vec![1f32, 2., 3.]),
    };
    assert_eq!(op.fuse(&vec![matrix]), Ok(None));
    // A second pass over what is left finds nothing more to fuse.
    let fused = op.fuse(&vec![Successor::ScalarMax(0.)]).unwrap().unwrap();
    assert_eq!(fused.fuse(&vec![Successor::Other]), Ok(None));
}

#[test]
fn fusion_rejects_a_constant_of_another_type() {
    let op = MatMulUnaryImplASimpleB::<f32>::new(&[2, 2], &[2, 3]).unwrap();
    let untyped = Successor::Binary { op: BinaryOp::Mul, b_shape: vec![3], b: None };
    assert_eq!(op.fuse(&vec![untyped]), Err(MatMulError::TypeMismatch));
    let short = Successor::Binary { op: BinaryOp::Add, b_shape: vec![3], b: Some(vec![1f32]) };
    assert_eq!(op.fuse(&vec![short]), Err(MatMulError::TypeMismatch));
    // Where nothing would be fused anyway, the type does not matter.
    let other = Successor::Binary { op: BinaryOp::Other, b_shape: vec![3], b: None };
    assert_eq!(op.fuse(&vec![other]), Ok(None));
    let elsewhere = Successor::Binary { op: BinaryOp::Mul, b_shape: vec![4], b: None };
    assert_eq!(op.fuse(&vec![elsewhere]), Ok(None));
}

#[test]
fn post_ops_copy_and_describe_themselves() {
    let ops = vec![PostOp::PerColMul(vec![1f32, 2.]), PostOp::Min(3.), PostOp::Max(4.)];
    assert_eq!(dup_post_ops(&ops), ops);
    assert_eq!(ops[0].dup(), ops[0]);
    assert_eq!(copy_values(&vec![1u8, 2, 3]), vec![1, 2, 3]);
    assert_eq!(ops[0].label(), " + PerColMul");
    assert_eq!(PostOp::PerColAdd(vec![0f32]).label(), " + PerColAdd");
    assert_eq!(ops[1].label(), " + Min");
    assert_eq!(ops[2].label(), " + Max");
}
