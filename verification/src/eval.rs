use vstd::prelude::*;
use crate::error::MatMulError;
use crate::geo::{geometry_of, lemma_geo_invariants, representable, Geo, GeoView};
use crate::index::{
    clamp_index, clamped_position, in_bounds, lemma_clamp_identity, lemma_clamp_in_bounds,
    lemma_ravel_bound, lemma_ravel_unravel, lemma_unravel_in_bounds, ravel, row_major_indices,
    unravel,
};
use crate::infer::{broadcast_dim, dims_broadcast, inferable};
use crate::shape::{
    allocatable, lemma_extent_le_volume, lemma_product_last_two, lemma_product_positive,
    lemma_product_skip, lemma_volume_bounds, lemma_volume_split, product, stride, stride_prefix,
};

verus! {

/// One matrix inside a row-major tensor: where its first element lies and how
/// far apart its rows and its columns are, all counted in elements.
#[derive(Clone, Copy, Debug, PartialEq, Eq, Structural)]
pub struct MatrixSlice {
    /// Position of the first element of the matrix within the tensor.
    pub offset: usize,
    /// Distance between two rows.
    pub row_stride: isize,
    /// Distance between two columns.
    pub col_stride: isize,
}

/// The work of one batch cell: the matrices of the two operands that are
/// packed and multiplied, and the matrix of the result that is written.
#[derive(Clone, Copy, Debug, PartialEq, Eq, Structural)]
pub struct CellPlan {
    /// The matrix of the left operand.
    pub a: MatrixSlice,
    /// The matrix of the right operand.
    pub b: MatrixSlice,
    /// The matrix of the result.
    pub c: MatrixSlice,
}

/// The row-major position, among the batch cells of an operand of shape
/// `shape`, of the cell that is read for the cell `cell` of the result. An
/// axis of extent one is read at index zero whatever the cell.
pub open spec fn broadcast_position(shape: Seq<usize>, cell: Seq<usize>) -> nat {
    let prefix = shape.take(cell.len() as int);
    ravel(prefix, clamp_index(prefix, cell))
}

/// The matrix of a tensor of shape `shape` that is read or written for the
/// cell `cell` of the result.
pub open spec fn operand_slice(shape: Seq<usize>, cell: Seq<usize>) -> MatrixSlice {
    let rank = shape.len() as int;
    MatrixSlice {
        offset: (broadcast_position(shape, cell) * (shape[rank - 2] * shape[rank - 1])) as usize,
        row_stride: shape[rank - 1] as isize,
        col_stride: 1,
    }
}

/// The sum, over the first `upto` axes, of the index on the axis times the
/// row-major stride of the axis.
pub open spec fn strided_offset(shape: Seq<usize>, index: Seq<usize>, upto: int) -> nat
    decreases upto,
{
    if upto <= 0 {
        0
    } else {
        strided_offset(shape, index, upto - 1) + (index[upto - 1] as nat) * stride(shape, upto - 1)
    }
}

impl GeoView {
    /// The number of batch cells of the result.
    pub open spec fn cell_count(self) -> nat {
        product(self.c_shape_prefix)
    }

    /// The multi-index of the `i`-th batch cell of the result.
    pub open spec fn cell_index(self, i: nat) -> Seq<usize> {
        unravel(self.c_shape_prefix, i)
    }

    /// The work of the `i`-th batch cell of the result.
    pub open spec fn cell(self, i: nat) -> CellPlan {
        CellPlan {
            a: operand_slice(self.bc_a_shape, self.cell_index(i)),
            b: operand_slice(self.bc_b_shape, self.cell_index(i)),
            c: operand_slice(self.c_shape, self.cell_index(i)),
        }
    }

    /// `cells` lists the work of every batch cell, in row-major order.
    pub open spec fn cells_are(self, cells: Seq<CellPlan>) -> bool {
        &&& cells.len() == self.cell_count()
        &&& forall|i: int| 0 <= i < cells.len() ==> #[trigger] cells[i] == self.cell(i as nat)
    }
}

/// The geometry of a product and the work of each of its batch cells.
#[derive(Clone, Debug, PartialEq, Eq)]
pub struct EvalPlan {
    /// The geometry of the product.
    pub geo: Geo,
    /// The work of each batch cell, in row-major order of the cells.
    pub cells: Vec<CellPlan>,
}

impl EvalPlan {
    /// The geometry is well formed and the cells are those of the geometry.
    pub open spec fn wf(&self) -> bool {
        &&& self.geo.wf()
        &&& self.geo@.cells_are(self.cells@)
    }
}

/// Where the result has a batch cell, no batch axis of an operand is empty.
pub proof fn lemma_cells_nonzero(g: GeoView)
    requires
        g.wf(),
        g.cell_count() > 0,
    ensures
        forall|t: int| 0 <= t < g.rank() - 2 ==> #[trigger] g.bc_a_shape[t] != 0,
        forall|t: int| 0 <= t < g.rank() - 2 ==> #[trigger] g.bc_b_shape[t] != 0,
        forall|t: int| 0 <= t < g.rank() - 2 ==> #[trigger] g.c_shape[t] != 0,
{
    lemma_geo_invariants(g);
    lemma_product_positive(g.c_shape_prefix);
    assert forall|t: int| 0 <= t < g.rank() - 2 implies #[trigger] g.c_shape[t] != 0 by {
        assert(g.c_shape_prefix[t] == g.c_shape[t]);
    }
    assert forall|t: int| 0 <= t < g.rank() - 2 implies #[trigger] g.bc_a_shape[t] != 0 by {
        assert(g.c_shape[t] != 0);
        assert(dims_broadcast(g.bc_a_shape[t], g.bc_b_shape[t]));
    }
    assert forall|t: int| 0 <= t < g.rank() - 2 implies #[trigger] g.bc_b_shape[t] != 0 by {
        assert(g.c_shape[t] != 0);
        assert(dims_broadcast(g.bc_a_shape[t], g.bc_b_shape[t]));
    }
}

/// The matrix read for a cell lies within the tensor, and its offset is the
/// position of the cell times the size of one matrix, without wrapping.
pub proof fn lemma_slice_in_bounds(shape: Seq<usize>, cell: Seq<usize>)
    requires
        shape.len() == cell.len() + 2,
        allocatable(shape),
        forall|t: int| 0 <= t < cell.len() ==> shape[t] != 0,
    ensures
        broadcast_position(shape, cell) < product(shape.take(cell.len() as int)),
        operand_slice(shape, cell).offset == broadcast_position(shape, cell) * (shape[shape.len()
            - 2] * shape[shape.len() - 1]),
        operand_slice(shape, cell).offset + shape[shape.len() - 2] * shape[shape.len() - 1]
            <= product(shape),
        operand_slice(shape, cell).row_stride == shape[shape.len() - 1],
        product(shape) <= isize::MAX,
{
    let rank = shape.len() as int;
    let prefix = shape.take(cell.len() as int);
    let (rows, cols) = (shape[rank - 2] as nat, shape[rank - 1] as nat);
    lemma_clamp_in_bounds(prefix, cell);
    lemma_ravel_bound(prefix, clamp_index(prefix, cell));
    lemma_product_last_two(shape);
    lemma_volume_bounds(shape);
    lemma_extent_le_volume(shape, rank - 1);
    let position = broadcast_position(shape, cell);
    assert(position * (rows * cols) + rows * cols <= product(prefix) * (rows * cols))
        by (nonlinear_arith)
        requires
            position < product(prefix),
    ;
    assert(position * (rows * cols) >= 0 && rows * cols >= 0) by (nonlinear_arith);
}

/// The element in row `row` and column `col` of the matrix read for a cell
/// is the element of the tensor at the clamped cell, row and column.
pub proof fn lemma_slice_element(shape: Seq<usize>, cell: Seq<usize>, row: usize, col: usize)
    requires
        shape.len() == cell.len() + 2,
        allocatable(shape),
        forall|t: int| 0 <= t < cell.len() ==> shape[t] != 0,
        row < shape[shape.len() - 2],
        col < shape[shape.len() - 1],
    ensures
        operand_slice(shape, cell).offset + row * operand_slice(shape, cell).row_stride + col
            * operand_slice(shape, cell).col_stride == ravel(
            shape,
            clamp_index(shape.take(cell.len() as int), cell) + seq![row, col],
        ),
        in_bounds(shape, clamp_index(shape.take(cell.len() as int), cell) + seq![row, col]),
{
    let rank = shape.len() as int;
    let prefix = shape.take(cell.len() as int);
    let clamped = clamp_index(prefix, cell);
    let index = clamped + seq![row, col];
    let (rows, cols) = (shape[rank - 2] as nat, shape[rank - 1] as nat);
    lemma_slice_in_bounds(shape, cell);
    lemma_clamp_in_bounds(prefix, cell);
    let position = broadcast_position(shape, cell);
    assert(shape.drop_last().drop_last() =~= prefix);
    assert(index.drop_last().drop_last() =~= clamped);
    assert(index.last() == col);
    assert(index.drop_last().last() == row);
    assert(ravel(shape.drop_last(), index.drop_last()) == position * rows + row);
    assert(ravel(shape, index) == (position * rows + row) * cols + col);
    assert((position * rows + row) * cols + col == position * (rows * cols) + row * cols + col * 1)
        by (nonlinear_arith);
    assert forall|t: int| 0 <= t < shape.len() implies index[t] < shape[t] by {
        if t < rank - 2 {
            assert(index[t] == clamped[t]);
            assert(prefix[t] == shape[t]);
        }
    }
}

/// Two cells that differ only on an axis on which the operand has extent one
/// read the same matrix of the operand: the operand is broadcast along that
/// axis.
pub proof fn lemma_unit_axis_is_broadcast(
    shape: Seq<usize>,
    p: Seq<usize>,
    q: Seq<usize>,
    axis: int,
)
    requires
        p.len() == q.len(),
        p.len() <= shape.len(),
        0 <= axis < p.len(),
        shape[axis] == 1,
        forall|t: int| 0 <= t < p.len() && t != axis ==> p[t] == q[t],
    ensures
        broadcast_position(shape, p) == broadcast_position(shape, q),
        operand_slice(shape, p) == operand_slice(shape, q),
{
    let prefix = shape.take(p.len() as int);
    assert(clamp_index(prefix, p) =~= clamp_index(prefix, q));
}

/// Broadcasting of the left operand: where it has extent one on a batch
/// axis, two cells of the result that differ only on that axis multiply the
/// same matrix of the left operand.
pub proof fn lemma_broadcast_a(g: GeoView, i: nat, j: nat, axis: int)
    requires
        g.wf(),
        i < g.cell_count(),
        j < g.cell_count(),
        0 <= axis < g.rank() - 2,
        g.bc_a_shape[axis] == 1,
        forall|t: int|
            0 <= t < g.rank() - 2 && t != axis ==> g.cell_index(i)[t] == g.cell_index(j)[t],
    ensures
        g.cell(i).a == g.cell(j).a,
{
    lemma_geo_invariants(g);
    lemma_unravel_in_bounds(g.c_shape_prefix, i);
    lemma_unravel_in_bounds(g.c_shape_prefix, j);
    lemma_unit_axis_is_broadcast(g.bc_a_shape, g.cell_index(i), g.cell_index(j), axis);
}

/// Broadcasting of the right operand: where it has extent one on a batch
/// axis, two cells of the result that differ only on that axis multiply by
/// the same matrix of the right operand.
pub proof fn lemma_broadcast_b(g: GeoView, i: nat, j: nat, axis: int)
    requires
        g.wf(),
        i < g.cell_count(),
        j < g.cell_count(),
        0 <= axis < g.rank() - 2,
        g.bc_b_shape[axis] == 1,
        forall|t: int|
            0 <= t < g.rank() - 2 && t != axis ==> g.cell_index(i)[t] == g.cell_index(j)[t],
    ensures
        g.cell(i).b == g.cell(j).b,
{
    lemma_geo_invariants(g);
    lemma_unravel_in_bounds(g.c_shape_prefix, i);
    lemma_unravel_in_bounds(g.c_shape_prefix, j);
    lemma_unit_axis_is_broadcast(g.bc_b_shape, g.cell_index(i), g.cell_index(j), axis);
}

/// An operand that has the batch axes of the result reads, for the `i`-th
/// cell, its own `i`-th matrix.
pub proof fn lemma_unbroadcast_position(shape: Seq<usize>, prefix: Seq<usize>, i: nat)
    requires
        prefix.len() <= shape.len(),
        shape.take(prefix.len() as int) == prefix,
        i < product(prefix),
    ensures
        broadcast_position(shape, unravel(prefix, i)) == i,
{
    lemma_unravel_in_bounds(prefix, i);
    lemma_clamp_identity(prefix, unravel(prefix, i));
    lemma_ravel_unravel(prefix, i);
}

/// The matrices of the result lie one behind the other in the order of the
/// cells: the `i`-th cell writes the `i`-th block of `m` rows and `n`
/// columns, and no two cells write the same element.
pub proof fn lemma_result_cells_consecutive(g: GeoView, i: nat)
    requires
        g.wf(),
        i < g.cell_count(),
    ensures
        g.cell(i).c.offset == i * (g.m * g.n),
        g.cell(i).c.row_stride == g.n,
        (i + 1) * (g.m * g.n) <= product(g.c_shape),
        product(g.c_shape) == g.cell_count() * (g.m * g.n),
{
    lemma_geo_invariants(g);
    lemma_cells_nonzero(g);
    lemma_unravel_in_bounds(g.c_shape_prefix, i);
    lemma_unbroadcast_position(g.c_shape, g.c_shape_prefix, i);
    lemma_slice_in_bounds(g.c_shape, g.cell_index(i));
    lemma_product_last_two(g.c_shape);
    assert((i + 1) * (g.m * g.n) == i * (g.m * g.n) + g.m * g.n) by (nonlinear_arith);
}

/// The row-major position of an index over the first `upto` axes, counted in
/// elements of the whole shape, is the sum of its entries times the strides.
pub proof fn lemma_ravel_by_strides(shape: Seq<usize>, index: Seq<usize>, upto: int)
    requires
        0 <= upto <= shape.len(),
        upto <= index.len(),
    ensures
        ravel(shape.take(upto), index.take(upto)) * product(shape.skip(upto)) == strided_offset(
            shape,
            index,
            upto,
        ),
    decreases upto,
{
    if upto == 0 {
        assert(shape.take(0).len() == 0);
        assert(0 * product(shape.skip(0)) == 0) by (nonlinear_arith);
    } else {
        let j = upto - 1;
        lemma_ravel_by_strides(shape, index, j);
        lemma_product_skip(shape, j);
        let head = shape.take(upto);
        let at = index.take(upto);
        assert(head.drop_last() =~= shape.take(j));
        assert(at.drop_last() =~= index.take(j));
        let r = ravel(shape.take(j), index.take(j));
        let rest = product(shape.skip(upto));
        assert(ravel(head, at) == r * (shape[j] as nat) + (index[j] as nat));
        assert((r * (shape[j] as nat) + (index[j] as nat)) * rest == r * ((shape[j] as nat) * rest)
            + (index[j] as nat) * rest) by (nonlinear_arith);
    }
}

/// The strides of the batch axes drive the iteration over the cells: the
/// offset of the matrix read for a cell is the sum, over the batch axes, of
/// the clamped index on the axis times the stride of the axis, and the
/// strides are those that the geometry holds, innermost batch axis first.
pub proof fn lemma_offset_by_strides(shape: Seq<usize>, cell: Seq<usize>)
    requires
        shape.len() == cell.len() + 2,
        allocatable(shape),
        forall|t: int| 0 <= t < cell.len() ==> shape[t] != 0,
    ensures
        operand_slice(shape, cell).offset == strided_offset(
            shape,
            clamp_index(shape.take(cell.len() as int), cell),
            cell.len() as int,
        ),
        forall|t: int|
            0 <= t < cell.len() ==> #[trigger] stride_prefix(shape)[cell.len() - 1 - t] == stride(
                shape,
                t,
            ),
{
    let prefix = shape.take(cell.len() as int);
    let clamped = clamp_index(prefix, cell);
    lemma_slice_in_bounds(shape, cell);
    lemma_ravel_by_strides(shape, clamped, cell.len() as int);
    lemma_product_last_two(shape);
    assert(clamped.take(cell.len() as int) =~= clamped);
    assert forall|t: int| 0 <= t < cell.len() implies #[trigger] stride_prefix(shape)[cell.len() - 1
        - t] == stride(shape, t) by {
        lemma_volume_split(shape, t + 1);
    }
}

/// The matrix of a tensor that is read or written for one cell of the
/// result. It lies within the tensor.
pub fn operand_slice_at(shape: &Vec<usize>, cell: &Vec<usize>) -> (slice: MatrixSlice)
    requires
        shape.len() == cell.len() + 2,
        allocatable(shape@),
        forall|t: int| 0 <= t < cell.len() ==> shape[t] != 0,
    ensures
        slice == operand_slice(shape@, cell@),
        slice.offset == broadcast_position(shape@, cell@) * (shape[shape.len() - 2] * shape[shape.len()
            - 1]),
        slice.offset + shape[shape.len() - 2] * shape[shape.len() - 1] <= product(shape@),
        slice.row_stride == shape[shape.len() - 1],
{
    let rank: usize = shape.len();
    let rows: usize = shape[rank - 2];
    let cols: usize = shape[rank - 1];
    let position: usize = clamped_position(shape, cell);
    proof {
        let prefix = shape@.take(cell.len() as int);
        assert(prefix =~= shape@.take(rank - 2));
        lemma_product_last_two(shape@);
        lemma_volume_bounds(shape@);
        lemma_volume_split(shape@, rank - 2);
        lemma_extent_le_volume(shape@, rank - 1);
        assert(position * (rows * cols) + rows * cols <= product(prefix) * (rows * cols))
            by (nonlinear_arith)
            requires
                position < product(prefix),
        ;
        assert(position * (rows * cols) >= 0 && rows * cols >= 0) by (nonlinear_arith);
    }
    let size: usize = rows * cols;
    MatrixSlice { offset: position * size, row_stride: cols as isize, col_stride: 1 }
}

impl Geo {
    /// The work of every batch cell of the result, in row-major order of the
    /// cells.
    pub fn cells(&self) -> (cells: Vec<CellPlan>)
        requires
            self.wf(),
        ensures
            self@.cells_are(cells@),
    {
        proof {
            lemma_geo_invariants(self@);
        }
        let indices = row_major_indices(&self.c_shape_prefix);
        let mut cells: Vec<CellPlan> = Vec::new();
        let mut i: usize = 0;
        while i < indices.len()
            invariant
                i <= indices.len(),
                self.wf(),
                indices@.len() == self@.cell_count(),
                forall|j: int|
                    0 <= j < indices@.len() ==> (#[trigger] indices@[j])@ == self@.cell_index(
                        j as nat,
                    ),
                cells@.len() == i,
                forall|j: int| 0 <= j < i ==> #[trigger] cells@[j] == self@.cell(j as nat),
            decreases indices.len() - i,
        {
            let cell = &indices[i];
            proof {
                lemma_geo_invariants(self@);
                lemma_cells_nonzero(self@);
                lemma_unravel_in_bounds(self@.c_shape_prefix, i as nat);
                assert(cell@ == self@.cell_index(i as nat));
            }
            let a = operand_slice_at(&self.bc_a_shape, cell);
            let b = operand_slice_at(&self.bc_b_shape, cell);
            let c = operand_slice_at(&self.c_shape, cell);
            cells.push(CellPlan { a, b, c });
            i = i + 1;
        }
        cells
    }
}

/// Plans the product of two tensors of shapes `a_shape` and `b_shape`: the
/// geometry of the product and, for every batch cell of the result in
/// row-major order, the matrices of the operands to pack and multiply and the
/// matrix of the result to write.
pub fn eval_t(a_shape: &[usize], b_shape: &[usize]) -> (r: Result<EvalPlan, MatMulError>)
    ensures
        r is Ok <==> inferable(a_shape@, b_shape@) && representable(a_shape@, b_shape@),
        r matches Ok(plan) ==> plan.geo@ == geometry_of(a_shape@, b_shape@) && plan.wf(),
        r matches Err(e) ==> e == (if inferable(a_shape@, b_shape@) {
            MatMulError::Allocation
        } else {
            MatMulError::Shape
        }),
{
    match Geo::new(a_shape, b_shape) {
        Err(e) => Err(e),
        Ok(geo) => {
            let cells = geo.cells();
            Ok(EvalPlan { geo, cells })
        },
    }
}

} // verus!
