use matmul::datum::{Cost, DatumType};
use matmul::error::MatMulError;
use matmul::eval::{eval_t, CellPlan, MatrixSlice};
use matmul::general::{MatMulUnaryImplA, PackJob, TileCell};
use matmul::simple_b::MatMulUnaryImplASimpleB;

fn at(offset: usize, stride: isize, i: usize) -> usize {
    (offset as isize + stride * i as isize) as usize
}

fn element(data: &[f32], slice: &MatrixSlice, row: usize, col: usize) -> f32 {
    data[at(at(slice.offset, slice.row_stride, row), slice.col_stride, col)]
}

fn multiply(
    a: &[f32],
    a_at: &MatrixSlice,
    b: &[f32],
    b_at: &MatrixSlice,
    c: &mut [f32],
    c_at: &MatrixSlice,
    (m, k, n): (usize, usize, usize),
) {
    for i in 0..m {
        for j in 0..n {
            let mut sum = 0f32;
            for l in 0..k {
                sum += element(a, a_at, i, l) * element(b, b_at, l, j);
            }
            c[at(at(c_at.offset, c_at.row_stride, i), c_at.col_stride, j)] = sum;
        }
    }
}

fn cell_by_cell(a_shape: &[usize], b_shape: &[usize], a: &[f32], b: &[f32]) -> Vec<f32> {
    let plan = eval_t(a_shape, b_shape).unwrap();
    let mut c = vec![f32::NAN; plan.geo.c_shape.iter().product()];
    let mkn = (plan.geo.m, plan.geo.k, plan.geo.n);
    for cell in &plan.cells {
        multiply(a, &cell.a, b, &cell.b, &mut c, &cell.c, mkn);
    }
    c
}

fn ramp(len: usize) -> Vec<f32> {
    (0..len).map(|i| ((i * 5 + 1) % 13) as f32 - 6.0).collect()
}

fn by_rows(offset: usize, row_stride: isize) -> MatrixSlice {
    MatrixSlice { offset, row_stride, col_stride: 1 }
}

#[test]
fn simple_b_collapses_the_left_operand() {
    let op = MatMulUnaryImplASimpleB::<f32>::new(&[2, 3, 4], &[4, 5]).unwrap();
    assert_eq!((op.geo.m, op.geo.k, op.geo.n), (6, 4, 5));
    assert_eq!(op.geo.a_shape, vec![6, 4]);
    assert_eq!(op.geo.b_shape, vec![4, 5]);
    assert_eq!(op.geo.c_shape, vec![6, 5]);
    assert_eq!(op.a_shape, vec![2, 3, 4]);
    assert_eq!(op.c_shape, vec![2, 3, 5]);
    assert!(op.non_linear.is_empty());
    assert_eq!(op.eval(), CellPlan { a: by_rows(0, 4), b: by_rows(0, 5), c: by_rows(0, 5) });
}

#[test]
fn simple_b_equals_the_product_cell_by_cell() {
    let a = ramp(24);
    let b = ramp(20);
    let op = MatMulUnaryImplASimpleB::<f32>::new(&[2, 3, 4], &[4, 5]).unwrap();
    let run = op.eval();
    let mut c = vec![f32::NAN; op.c_shape.iter().product()];
    multiply(&a, &run.a, &b, &run.b, &mut c, &run.c, (op.geo.m, op.geo.k, op.geo.n));
    assert_eq!(c, cell_by_cell(&[2, 3, 4], &[4, 5], &a, &b));
    // Row by row, as a product of six rows of four by the matrix.
    for row in 0..6 {
        for j in 0..5 {
            let sum: f32 = (0..4).map(|l| a[row * 4 + l] * b[l * 5 + j]).sum();
            assert_eq!(c[row * 5 + j], sum);
        }
    }
}

#[test]
fn simple_b_rows_are_the_elements_divided_by_the_columns() {
    let op = MatMulUnaryImplASimpleB::<f32>::new(&[7, 2, 3, 4], &[4, 5]).unwrap();
    assert_eq!(op.geo.m, 7 * 2 * 3 * 4 / 4);
    let op = MatMulUnaryImplASimpleB::<f32>::new(&[4], &[4, 5]).unwrap();
    assert_eq!((op.geo.m, op.geo.k, op.geo.n), (1, 4, 5));
    assert_eq!(op.c_shape, vec![1, 5]);
    let op = MatMulUnaryImplASimpleB::<f32>::new(&[3, 2, 0], &[0, 5]).unwrap();
    assert_eq!((op.geo.m, op.geo.k, op.geo.n), (6, 0, 5));
    assert_eq!(op.c_shape, vec![3, 2, 5]);
}

#[test]
fn simple_b_fails_as_the_geometry_does() {
    assert_eq!(
        MatMulUnaryImplASimpleB::<f32>::new(&[2, 3, 4], &[5, 5]).err(),
        Some(MatMulError::Shape)
    );
    let big = 1usize << (usize::BITS / 2);
    assert_eq!(
        MatMulUnaryImplASimpleB::<f32>::new(&[big, 1], &[1, big]).err(),
        Some(MatMulError::Allocation)
    );
}

#[test]
fn simple_b_cost_and_name() {
    let op = MatMulUnaryImplASimpleB::<f32>::new(&[2, 3, 4], &[4, 5]).unwrap();
    assert_eq!(op.cost(DatumType::F32), vec![(Cost::FMA(DatumType::F32), 6 * 4 * 5)]);
    assert_eq!(op.name(), "MatMulUnaryImplASimpleB");
    assert_eq!(op.info("kernel 4x4"), vec!["kernel 4x4".to_string()]);
}

#[test]
fn general_packs_each_matrix_of_the_constant() {
    let op = MatMulUnaryImplA::new(&[3, 1, 2, 5], &[4, 5, 7], 40).unwrap();
    assert_eq!((op.geo.m, op.geo.k, op.geo.n), (2, 5, 7));
    assert_eq!(op.packed_b_len, 40);
    assert_eq!(op.packed_bs_shape, vec![1, 4, 40]);
    assert_eq!(
        op.packing,
        (0..4).map(|t| PackJob { src: by_rows(t * 35, 7), dst: t * 40 }).collect::<Vec<_>>()
    );
}

#[test]
fn general_multiplies_each_cell_by_its_tile() {
    let op = MatMulUnaryImplA::new(&[3, 1, 2, 5], &[4, 5, 7], 40).unwrap();
    let cells = op.eval();
    assert_eq!(cells.len(), 12);
    for p in 0..3 {
        for q in 0..4 {
            assert_eq!(
                cells[p * 4 + q],
                TileCell {
                    a: by_rows(p * 10, 5),
                    packed_b: q * 40,
                    c: by_rows((p * 4 + q) * 14, 7)
                }
            );
        }
    }
}

#[test]
fn general_equals_the_product_cell_by_cell() {
    let a_shape = [2, 3, 1, 4, 3];
    let b_shape = [3, 5, 3, 2];
    let a = ramp(72);
    let b = ramp(90);
    let len = 8;
    let op = MatMulUnaryImplA::new(&a_shape, &b_shape, len).unwrap();
    let (m, k, n) = (op.geo.m, op.geo.k, op.geo.n);
    assert_eq!(op.packed_bs_shape, vec![1, 3, 5, len]);
    // Packing keeps the matrix by rows at the start of its tile.
    let mut packed = vec![f32::NAN; op.packed_bs_shape.iter().product()];
    for job in &op.packing {
        for l in 0..k {
            for j in 0..n {
                packed[job.dst + l * n + j] = element(&b, &job.src, l, j);
            }
        }
    }
    let mut c = vec![f32::NAN; op.geo.c_shape.iter().product()];
    for cell in op.eval() {
        let tile = by_rows(cell.packed_b, n as isize);
        multiply(&a, &cell.a, &packed, &tile, &mut c, &cell.c, (m, k, n));
    }
    assert_eq!(c, cell_by_cell(&a_shape, &b_shape, &a, &b));
    assert_eq!(op.geo.c_shape, vec![2, 3, 5, 4, 2]);
}

#[test]
fn general_takes_a_constant_of_any_rank() {
    let op = MatMulUnaryImplA::new(&[2, 3], &[3], 4).unwrap();
    assert_eq!(op.geo.bc_b_shape, vec![3, 1]);
    assert_eq!(op.packed_bs_shape, vec![4]);
    assert_eq!(op.packing, vec![PackJob { src: by_rows(0, 1), dst: 0 }]);
    assert_eq!(op.eval(), vec![TileCell { a: by_rows(0, 3), packed_b: 0, c: by_rows(0, 1) }]);
    let op = MatMulUnaryImplA::new(&[5, 2, 3], &[3, 4], 16).unwrap();
    assert_eq!(op.packing.len(), 1);
    assert_eq!(op.eval().iter().map(|cell| cell.packed_b).collect::<Vec<_>>(), vec![0; 5]);
}

#[test]
fn general_fails_as_the_geometry_does_or_on_too_many_tiles() {
    assert_eq!(MatMulUnaryImplA::new(&[2, 3], &[7, 4, 5], 20).err(), Some(MatMulError::Shape));
    let big = 1usize << (usize::BITS / 2);
    assert_eq!(
        MatMulUnaryImplA::new(&[big, 1], &[1, big], 1).err(),
        Some(MatMulError::Allocation)
    );
    assert_eq!(
        MatMulUnaryImplA::new(&[1, 1], &[big, 1, 1], big).err(),
        Some(MatMulError::Allocation)
    );
    assert!(MatMulUnaryImplA::new(&[1, 1], &[6, 1, 1], big).is_ok());
}

#[test]
fn general_cost_and_name() {
    let op = MatMulUnaryImplA::new(&[3, 1, 2, 5], &[4, 5, 7], 40).unwrap();
    assert_eq!(op.cost(DatumType::F32), vec![(Cost::FMA(DatumType::F32), 12 * 2 * 5 * 7)]);
    assert_eq!(op.name(), "MatMulUnaryImplA");
    assert_eq!(op.info("kernel"), vec!["kernel".to_string()]);
}
