use vstd::prelude::*;
use vstd::arithmetic::div_mod::lemma_div_by_multiple;
use crate::datum::{Cost, DatumType};
use crate::error::MatMulError;
use crate::eval::{
    lemma_cells_nonzero, lemma_slice_in_bounds, lemma_unbroadcast_position, CellPlan, MatrixSlice,
};
use crate::geo::{geometry_of, leading, lemma_geo_invariants, representable, Geo};
use crate::index::{lemma_ravel_unit_shape, lemma_unravel_in_bounds};
use crate::infer::{
    bc_a_shape, bc_b_shape, broadcast_dim, c_shape_of, common_rank, inferable, lemma_common_rank,
    lemma_pad_left, normalize_a, normalize_b,
};
use crate::post_op::{
    all_fit, copy_values, dup_post_ops, post_ops, BinaryOp, PostOp, PostOpView, Successor,
};
use crate::shape::{
    element_count, extent, lemma_extent_le_volume, lemma_leading_units, lemma_matrix_shape,
    lemma_volume_bounds, lemma_volume_split, product, volume,
};

verus! {

/// The number of rows of the left operand once all its axes but the last are
/// taken as one.
pub open spec fn collapsed_rows(a: Seq<usize>, b: Seq<usize>) -> nat {
    product(bc_a_shape(a, b).drop_last())
}

/// The shape of the left operand as a single matrix: all its axes but the
/// last collapsed into the rows.
pub open spec fn collapsed_a_shape(a: Seq<usize>, b: Seq<usize>) -> Seq<usize> {
    seq![collapsed_rows(a, b) as usize, bc_a_shape(a, b).last()]
}

/// Against a right operand that is one matrix, the collapsed left operand
/// has a geometry whenever the operand itself has one, and it is the
/// geometry of a single matrix product of as many rows as the operand has in
/// all its batch cells together.
pub proof fn lemma_collapsed_geometry(a: Seq<usize>, b: Seq<usize>)
    requires
        b.len() == 2,
        inferable(a, b),
        representable(a, b),
    ensures
        collapsed_rows(a, b) <= isize::MAX,
        inferable(collapsed_a_shape(a, b), b),
        representable(collapsed_a_shape(a, b), b),
        geometry_of(collapsed_a_shape(a, b), b).wf(),
        geometry_of(collapsed_a_shape(a, b), b).m == collapsed_rows(a, b),
        geometry_of(collapsed_a_shape(a, b), b).k == geometry_of(a, b).k,
        geometry_of(collapsed_a_shape(a, b), b).n == geometry_of(a, b).n,
        geometry_of(collapsed_a_shape(a, b), b).bc_a_shape == collapsed_a_shape(a, b),
        geometry_of(collapsed_a_shape(a, b), b).bc_b_shape == b,
        geometry_of(collapsed_a_shape(a, b), b).c_shape == seq![
            collapsed_rows(a, b) as usize,
            geometry_of(a, b).n,
        ],
        geometry_of(collapsed_a_shape(a, b), b).c_shape_prefix == Seq::<usize>::empty(),
        collapsed_rows(a, b) == geometry_of(a, b).cell_count() * geometry_of(a, b).m,
        geometry_of(a, b).k != 0 ==> collapsed_rows(a, b) == product(a) / (geometry_of(a, b).k
            as nat),
        product(a) == collapsed_rows(a, b) * geometry_of(a, b).k,
        product(c_shape_of(a, b)) == collapsed_rows(a, b) * geometry_of(a, b).n,
        forall|t: int| 0 <= t < common_rank(a, b) - 2 ==> #[trigger] bc_b_shape(a, b)[t] == 1,
        geometry_of(a, b).c_shape_prefix == bc_a_shape(a, b).take(common_rank(a, b) - 2),
{
    let rank = common_rank(a, b) as int;
    let x = bc_a_shape(a, b);
    let y = bc_b_shape(a, b);
    let c = c_shape_of(a, b);
    let g = geometry_of(a, b);
    lemma_common_rank(a, b);
    lemma_pad_left(normalize_a(a), rank as nat);
    lemma_pad_left(normalize_b(b), rank as nat);
    assert(normalize_b(b) == b);
    assert(y[rank - 2] == b[0] && y[rank - 1] == b[1]);
    let rows = collapsed_rows(a, b);
    let lead = x.drop_last();
    assert(lead =~= x.take(rank - 1));
    lemma_volume_split(x, rank - 1);
    lemma_volume_bounds(lead);
    assert(rows <= isize::MAX);
    let a2 = collapsed_a_shape(a, b);
    assert(a2[0] == rows && a2[1] == x[rank - 1]);
    // The collapsed operands are two matrices.
    assert(normalize_a(a2) == a2);
    assert(common_rank(a2, b) == 2);
    assert(bc_a_shape(a2, b) =~= a2);
    assert(bc_b_shape(a2, b) =~= b);
    assert(inferable(a2, b));
    let c2 = c_shape_of(a2, b);
    assert(c2 =~= seq![rows as usize, b[1]]);
    // Their volumes are bounded by those of the operands.
    lemma_matrix_shape(rows as usize, x[rank - 1]);
    lemma_matrix_shape(rows as usize, b[1]);
    assert(volume(x) == volume(lead) * extent(x[rank - 1]));
    assert(extent(rows as usize) <= volume(lead));
    assert(volume(a2) <= volume(x)) by (nonlinear_arith)
        requires
            volume(a2) == extent(rows as usize) * extent(x[rank - 1]),
            volume(x) == volume(lead) * extent(x[rank - 1]),
            extent(rows as usize) <= volume(lead),
    ;
    lemma_volume_split(y, rank - 2);
    assert(y.skip(rank - 2) =~= b);
    assert(c.drop_last() =~= lead) by {
        assert forall|t: int| 0 <= t < rank - 1 implies c[t] == x[t] by {
            if t < rank - 2 {
                assert(y[t] == 1);
                assert(c[t] == broadcast_dim(x[t], y[t]));
            }
        }
    }
    assert(c.last() == b[1]);
    assert(volume(c) == volume(lead) * extent(b[1]));
    assert(volume(c2) <= volume(c)) by (nonlinear_arith)
        requires
            volume(c2) == extent(rows as usize) * extent(b[1]),
            volume(c) == volume(lead) * extent(b[1]),
            extent(rows as usize) <= volume(lead),
    ;
    assert(representable(a2, b));
    let g2 = geometry_of(a2, b);
    assert(g2.c_shape_prefix =~= Seq::<usize>::empty());
    // The rows are those of all the batch cells.
    assert(g.c_shape_prefix =~= x.take(rank - 2)) by {
        assert forall|t: int| 0 <= t < rank - 2 implies c[t] == x[t] by {
            assert(c.drop_last()[t] == lead[t]);
        }
    }
    assert(lead.drop_last() =~= x.take(rank - 2));
    assert(lead.last() == g.m);
    assert(rows == product(x.take(rank - 2)) * (g.m as nat));
    // And they are the elements of the operand divided by its columns.
    let na = normalize_a(a);
    lemma_leading_units(x, rank - na.len());
    assert(x.skip(rank - na.len()) == na);
    if a.len() < 2 {
        lemma_leading_units(na, 1);
        assert(na.skip(1) =~= a);
    }
    assert(product(x) == product(a));
    assert(product(x) == rows * (g.k as nat));
    assert(product(c) == rows * (g.n as nat));
    if g.k != 0 {
        lemma_div_by_multiple(rows as int, g.k as int);
    }
}

/// The product of a tensor by a constant matrix, as a single matrix product:
/// the axes of the left operand before the last are collapsed into its rows,
/// and the constant is packed once.
#[derive(Clone, Debug, PartialEq)]
pub struct MatMulUnaryImplASimpleB<T> {
    /// The geometry of the single matrix product.
    pub geo: Geo,
    /// The shape of the left operand.
    pub a_shape: Vec<usize>,
    /// The shape of the result.
    pub c_shape: Vec<usize>,
    /// The operations fused behind the product, in the order in which they
    /// are applied.
    pub non_linear: Vec<PostOp<T>>,
}

impl<T: Copy> MatMulUnaryImplASimpleB<T> {
    /// The right operand is a matrix, the geometry is that of the collapsed
    /// left operand against it, the result has the shape inferred from the
    /// operands, and every fused operation fits its columns.
    pub open spec fn wf(&self) -> bool {
        let b = self.geo@.b_shape;
        &&& b.len() == 2
        &&& inferable(self.a_shape@, b)
        &&& representable(self.a_shape@, b)
        &&& self.geo@ == geometry_of(collapsed_a_shape(self.a_shape@, b), b)
        &&& self.geo.wf()
        &&& self.c_shape@ == c_shape_of(self.a_shape@, b)
        &&& all_fit(post_ops(self.non_linear@), self.geo.n)
    }

    /// Prepares the product of tensors of shape `a_shape` by the constant
    /// matrix of shape `b_shape`, with no operation fused behind it.
    pub fn new(a_shape: &[usize], b_shape: &[usize]) -> (r: Result<
        MatMulUnaryImplASimpleB<T>,
        MatMulError,
    >)
        requires
            b_shape@.len() == 2,
        ensures
            r is Ok <==> inferable(a_shape@, b_shape@) && representable(a_shape@, b_shape@),
            r matches Ok(op) ==> {
                &&& op.wf()
                &&& op.a_shape@ == a_shape@
                &&& op.geo@.b_shape == b_shape@
                &&& op.geo@.a_shape == collapsed_a_shape(a_shape@, b_shape@)
                &&& op.geo.m == collapsed_rows(a_shape@, b_shape@)
                &&& op.c_shape@ == c_shape_of(a_shape@, b_shape@)
                &&& op.non_linear@.len() == 0
                &&& op.geo.k != 0 ==> op.geo.m == product(a_shape@) / (op.geo.k as nat)
            },
            r matches Err(e) ==> e == (if inferable(a_shape@, b_shape@) {
                MatMulError::Allocation
            } else {
                MatMulError::Shape
            }),
    {
        let geo_ext = match Geo::new(a_shape, b_shape) {
            Err(e) => {
                return Err(e);
            },
            Ok(geo) => geo,
        };
        proof {
            lemma_geo_invariants(geo_ext@);
            lemma_collapsed_geometry(a_shape@, b_shape@);
            lemma_volume_split(geo_ext@.bc_a_shape, geo_ext@.rank() - 1);
            assert(geo_ext@.bc_a_shape.take(geo_ext@.rank() - 1) =~= geo_ext@.bc_a_shape.drop_last());
        }
        let rank: usize = geo_ext.bc_a_shape.len();
        let lead = leading(&geo_ext.bc_a_shape, rank - 1);
        let rows: usize = element_count(&lead);
        let mut shape_a_internal: Vec<usize> = Vec::new();
        shape_a_internal.push(rows);
        shape_a_internal.push(geo_ext.k);
        assert(shape_a_internal@ =~= collapsed_a_shape(a_shape@, b_shape@));
        match Geo::new(shape_a_internal.as_slice(), b_shape) {
            Err(e) => {
                assert(false);
                Err(e)
            },
            Ok(geo) => {
                let op = MatMulUnaryImplASimpleB {
                    geo,
                    a_shape: vstd::slice::slice_to_vec(a_shape),
                    c_shape: geo_ext.c_shape,
                    non_linear: Vec::new(),
                };
                assert(post_ops(op.non_linear@) =~= Seq::<PostOpView<T>>::empty());
                Ok(op)
            },
        }
    }

    /// The name of the operator.
    pub fn name(&self) -> (s: &'static str)
        ensures
            s@ == "MatMulUnaryImplASimpleB"@,
    {
        "MatMulUnaryImplASimpleB"
    }

    /// A description of the operator: the description of its kernel, then
    /// one line for each fused operation.
    pub fn info(&self, kernel: &str) -> (lines: Vec<String>)
        ensures
            lines@.len() == 1 + self.non_linear@.len(),
            lines@[0]@ == kernel@,
            forall|i: int|
                0 <= i < self.non_linear@.len() ==> (#[trigger] lines@[i + 1])@
                    == self.non_linear@[i]@.label(),
    {
        let mut lines: Vec<String> = Vec::new();
        lines.push(kernel.to_owned());
        let mut i: usize = 0;
        while i < self.non_linear.len()
            invariant
                i <= self.non_linear@.len(),
                lines@.len() == 1 + i,
                lines@[0]@ == kernel@,
                forall|j: int|
                    0 <= j < i ==> (#[trigger] lines@[j + 1])@ == self.non_linear@[j]@.label(),
            decreases self.non_linear.len() - i,
        {
            lines.push(self.non_linear[i].label().to_owned());
            i = i + 1;
        }
        lines
    }

    /// The cost of one evaluation: one fused multiply-add for each element
    /// of the result and each term of its sum.
    pub fn cost(&self, datum_type: DatumType) -> (costs: Vec<(Cost, u128)>)
        requires
            self.wf(),
        ensures
            self.geo.m * self.geo.k * self.geo.n <= u128::MAX,
            costs@ == seq![
                (Cost::FMA(datum_type), (self.geo.m * self.geo.k * self.geo.n) as u128),
            ],
    {
        proof {
            lemma_collapsed_geometry(self.a_shape@, self.geo@.b_shape);
            assert(product(Seq::<usize>::empty()) == 1);
            assert(self.geo@.fma_count() == self.geo.m * self.geo.k * self.geo.n)
                by (nonlinear_arith)
                requires
                    self.geo@.fma_count() == 1 * (self.geo.m as nat) * (self.geo.k as nat) * (
                    self.geo.n as nat),
            ;
        }
        let mut costs: Vec<(Cost, u128)> = Vec::new();
        costs.push((Cost::FMA(datum_type), self.geo.fma_count()));
        assert(costs@ =~= seq![
            (Cost::FMA(datum_type), (self.geo.m * self.geo.k * self.geo.n) as u128),
        ]);
        costs
    }

    /// The single kernel invocation of an evaluation: the left operand read
    /// as one row-major matrix of `m` rows and `k` columns, the constant
    /// packed from its `k` rows and `n` columns, and the result written as one
    /// row-major matrix of `m` rows and `n` columns. The fused operations are
    /// applied in the order of `non_linear`.
    pub fn eval(&self) -> (run: CellPlan)
        requires
            self.wf(),
        ensures
            run.a == (MatrixSlice { offset: 0, row_stride: self.geo.k as isize, col_stride: 1 }),
            run.b == (MatrixSlice { offset: 0, row_stride: self.geo.n as isize, col_stride: 1 }),
            run.c == (MatrixSlice { offset: 0, row_stride: self.geo.n as isize, col_stride: 1 }),
            self.geo.k <= isize::MAX,
            self.geo.n <= isize::MAX,
    {
        proof {
            lemma_geo_invariants(self.geo@);
            lemma_extent_le_volume(self.geo@.bc_a_shape, self.geo@.rank() - 1);
            lemma_extent_le_volume(self.geo@.bc_b_shape, self.geo@.rank() - 1);
        }
        let by_rows_of_a = MatrixSlice { offset: 0, row_stride: self.geo.k as isize, col_stride: 1 };
        let by_rows_of_b = MatrixSlice { offset: 0, row_stride: self.geo.n as isize, col_stride: 1 };
        CellPlan { a: by_rows_of_a, b: by_rows_of_b, c: by_rows_of_b }
    }

    /// The operations that stand for one successor, where it can be fused.
    fn fused_micro_op(&self, succ: &Successor<T>) -> (r: Result<Option<Vec<PostOp<T>>>, MatMulError>)
        ensures
            r is Err <==> succ@.mistyped(self.geo.n),
            r matches Err(e) ==> e == MatMulError::TypeMismatch,
            r matches Ok(ops) ==> {
                &&& ops is Some <==> succ@.fused(self.geo.n) is Some
                &&& ops matches Some(v) ==> post_ops(v@) == succ@.fused(self.geo.n)->Some_0
            },
    {
        let n: usize = self.geo.n;
        let mut ops: Vec<PostOp<T>> = Vec::new();
        match succ {
            Successor::Binary { op, b_shape, b } => {
                if b_shape.len() != 1 || b_shape[0] != n {
                    assert(b_shape@ != seq![n]);
                    return Ok(None);
                }
                assert(b_shape@ =~= seq![n]);
                let per_col_mul = match op {
                    BinaryOp::Mul => true,
                    BinaryOp::Add => false,
                    BinaryOp::Other => {
                        return Ok(None);
                    },
                };
                match b {
                    None => {
                        return Err(MatMulError::TypeMismatch);
                    },
                    Some(values) => {
                        if values.len() != n {
                            return Err(MatMulError::TypeMismatch);
                        }
                        if per_col_mul {
                            ops.push(PostOp::PerColMul(copy_values(values)));
                        } else {
                            ops.push(PostOp::PerColAdd(copy_values(values)));
                        }
                    },
                }
            },
            Successor::ScalarMax(max) => {
                ops.push(PostOp::Max(*max));
            },
            Successor::ScalarMin(min) => {
                ops.push(PostOp::Min(*min));
            },
            Successor::ScalarMinMax { lo, hi } => {
                ops.push(PostOp::Min(*hi));
                ops.push(PostOp::Max(*lo));
            },
            Successor::Other => {
                return Ok(None);
            },
        }
        assert(post_ops(ops@) =~= succ@.fused(n)->Some_0);
        Ok(Some(ops))
    }

    /// Fuses the operator that consumes the product into the product.
    ///
    /// Where the product has exactly one successor and that successor is a
    /// multiplication or an addition of a constant vector with one entry per
    /// column, a scalar maximum, a scalar minimum, or a clamp, the result is
    /// a copy of this operator with the matching operations appended to the
    /// fused ones. Otherwise there is nothing to fuse.
    pub fn fuse(&self, successors: &Vec<Successor<T>>) -> (r: Result<
        Option<MatMulUnaryImplASimpleB<T>>,
        MatMulError,
    >)
        requires
            self.wf(),
        ensures
            r is Err <==> successors@.len() == 1 && successors@[0]@.mistyped(self.geo.n),
            r matches Err(e) ==> e == MatMulError::TypeMismatch,
            r matches Ok(fused) ==> {
                &&& fused is Some <==> successors@.len() == 1 && successors@[0]@.fused(
                    self.geo.n,
                ) is Some
                &&& fused matches Some(op) ==> {
                    &&& op.wf()
                    &&& op.geo@ == self.geo@
                    &&& op.a_shape@ == self.a_shape@
                    &&& op.c_shape@ == self.c_shape@
                    &&& post_ops(op.non_linear@) == post_ops(self.non_linear@)
                        + successors@[0]@.fused(self.geo.n)->Some_0
                }
            },
    {
        if successors.len() != 1 {
            return Ok(None);
        }
        match self.fused_micro_op(&successors[0]) {
            Err(e) => Err(e),
            Ok(None) => Ok(None),
            Ok(Some(appended)) => {
                let mut appended = appended;
                let ghost tail = post_ops(appended@);
                let mut ops = dup_post_ops(&self.non_linear);
                let ghost head = ops@;
                ops.append(&mut appended);
                proof {
                    assert(post_ops(ops@) =~= post_ops(self.non_linear@) + tail) by {
                        assert(post_ops(head) == post_ops(self.non_linear@));
                        assert forall|i: int| 0 <= i < ops@.len() implies post_ops(ops@)[i] == (
                        post_ops(self.non_linear@) + tail)[i] by {
                            if i < head.len() {
                                assert(post_ops(head)[i] == head[i]@);
                            } else {
                                assert(tail[i - head.len()] == ops@[i]@);
                            }
                        }
                    }
                    assert(all_fit(post_ops(ops@), self.geo.n)) by {
                        assert forall|i: int| 0 <= i < ops@.len() implies (#[trigger] post_ops(
                            ops@,
                        )[i]).fits(self.geo.n) by {
                            if i < head.len() {
                                assert(post_ops(self.non_linear@)[i].fits(self.geo.n));
                            } else {
                                assert(post_ops(ops@)[i] == tail[i - head.len()]);
                            }
                        }
                    }
                }
                let op = MatMulUnaryImplASimpleB {
                    geo: self.geo.dup(),
                    a_shape: leading(&self.a_shape, self.a_shape.len()),
                    c_shape: leading(&self.c_shape, self.c_shape.len()),
                    non_linear: ops,
                };
                proof {
                    assert(op.a_shape@ =~= self.a_shape@);
                    assert(op.c_shape@ =~= self.c_shape@);
                }
                Ok(Some(op))
            },
        }
    }
}


/// The collapsed product reads and writes what the product cell by cell
/// does.
///
/// Against a constant matrix, row `row` of the `i`-th batch cell of the left
/// operand and of the result is row `i * m + row` of the collapsed left
/// operand and of the collapsed result, where `m` is the number of rows of
/// one cell: both start at the same element and have the same columns. All
/// cells are multiplied by the one matrix of the constant. So the single
/// product over the collapsed operand computes, element for element, the
/// sums that the products of the cells compute.
pub proof fn lemma_collapsed_is_batched(a: Seq<usize>, b: Seq<usize>, i: nat, row: usize)
    requires
        b.len() == 2,
        inferable(a, b),
        representable(a, b),
        i < geometry_of(a, b).cell_count(),
        row < geometry_of(a, b).m,
    ensures
        ({
            let g = geometry_of(a, b);
            let s = geometry_of(collapsed_a_shape(a, b), b);
            &&& s.m == g.cell_count() * g.m
            &&& s.k == g.k
            &&& s.n == g.n
            &&& i * g.m + row < s.m
            &&& g.cell(i).a.offset + row * g.cell(i).a.row_stride == (i * g.m + row) * s.k
            &&& g.cell(i).a.col_stride == 1
            &&& g.cell(i).c.offset + row * g.cell(i).c.row_stride == (i * g.m + row) * s.n
            &&& g.cell(i).c.col_stride == 1
            &&& g.cell(i).b == (MatrixSlice { offset: 0, row_stride: g.n as isize, col_stride: 1 })
        }),
{
    let g = geometry_of(a, b);
    let rank = g.rank();
    let cell = g.cell_index(i);
    lemma_collapsed_geometry(a, b);
    lemma_geo_invariants(g);
    lemma_cells_nonzero(g);
    lemma_unravel_in_bounds(g.c_shape_prefix, i);
    // The left operand and the result have the batch axes of the result.
    lemma_unbroadcast_position(g.bc_a_shape, g.c_shape_prefix, i);
    lemma_unbroadcast_position(g.c_shape, g.c_shape_prefix, i);
    lemma_slice_in_bounds(g.bc_a_shape, cell);
    lemma_slice_in_bounds(g.c_shape, cell);
    // The constant has only unit batch axes.
    lemma_slice_in_bounds(g.bc_b_shape, cell);
    lemma_ravel_unit_shape(g.bc_b_shape.take(cell.len() as int), cell);
    let (m, k, n) = (g.m as nat, g.k as nat, g.n as nat);
    assert(i * (m * k) + row * k == (i * m + row) * k) by (nonlinear_arith);
    assert(i * (m * n) + row * n == (i * m + row) * n) by (nonlinear_arith);
    assert(i * m + row < g.cell_count() * m) by (nonlinear_arith)
        requires
            i < g.cell_count(),
            row < m,
    ;
    assert(0 * (k * n) == 0) by (nonlinear_arith);
}

} // verus!
