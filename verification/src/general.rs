use vstd::prelude::*;
use crate::datum::{Cost, DatumType};
use crate::error::MatMulError;
use crate::eval::{
    broadcast_position, lemma_cells_nonzero, lemma_slice_in_bounds, lemma_unbroadcast_position,
    operand_slice, operand_slice_at, MatrixSlice,
};
use crate::geo::{geometry_of, leading, lemma_geo_invariants, representable, Geo, GeoView};
use crate::index::{clamped_position, lemma_unravel_in_bounds, row_major_indices, unravel};
use crate::infer::inferable;
use crate::shape::{
    allocatable, checked_volume, lemma_product_positive, lemma_volume_bounds, lemma_volume_split,
    product,
};

verus! {

/// The packing of one matrix of the constant operand: the matrix that is read
/// and the place in the buffer of packed matrices where its tile is written.
#[derive(Clone, Copy, Debug, PartialEq, Eq, Structural)]
pub struct PackJob {
    /// The matrix of the constant that is packed.
    pub src: MatrixSlice,
    /// Position of the tile within the buffer of packed matrices.
    pub dst: usize,
}

/// The work of one batch cell against a constant that was packed beforehand:
/// the matrix of the left operand to pack, the tile of the constant to
/// multiply it by, and the matrix of the result to write.
#[derive(Clone, Copy, Debug, PartialEq, Eq, Structural)]
pub struct TileCell {
    /// The matrix of the left operand.
    pub a: MatrixSlice,
    /// Position of the tile of the constant within the buffer of packed
    /// matrices.
    pub packed_b: usize,
    /// The matrix of the result.
    pub c: MatrixSlice,
}

impl GeoView {
    /// The batch axes of the right operand.
    pub open spec fn b_prefix(self) -> Seq<usize> {
        self.bc_b_shape.take(self.rank() - 2)
    }

    /// The number of matrices of the right operand.
    pub open spec fn tile_count(self) -> nat {
        product(self.b_prefix())
    }

    /// The shape of the buffer that holds one tile of `len` elements for
    /// each matrix of the right operand.
    pub open spec fn packed_bs_shape(self, len: usize) -> Seq<usize> {
        self.b_prefix().push(len)
    }

    /// The packing of the `t`-th matrix of the right operand into tiles of
    /// `len` elements.
    pub open spec fn pack_job(self, t: nat, len: usize) -> PackJob {
        PackJob {
            src: operand_slice(self.bc_b_shape, unravel(self.b_prefix(), t)),
            dst: (t * len) as usize,
        }
    }

    /// `jobs` lists the packing of every matrix of the right operand, in
    /// row-major order.
    pub open spec fn packing_is(self, jobs: Seq<PackJob>, len: usize) -> bool {
        &&& jobs.len() == self.tile_count()
        &&& forall|t: int| 0 <= t < jobs.len() ==> #[trigger] jobs[t] == self.pack_job(t as nat, len)
    }

    /// The work of the `i`-th batch cell of the result against tiles of `len`
    /// elements: the tile is the one of the matrix of the right operand that
    /// broadcasting reads for the cell.
    pub open spec fn tile_cell(self, i: nat, len: usize) -> TileCell {
        TileCell {
            a: operand_slice(self.bc_a_shape, self.cell_index(i)),
            packed_b: (broadcast_position(self.bc_b_shape, self.cell_index(i)) * len) as usize,
            c: operand_slice(self.c_shape, self.cell_index(i)),
        }
    }

    /// `cells` lists the work of every batch cell, in row-major order.
    pub open spec fn tile_cells_are(self, cells: Seq<TileCell>, len: usize) -> bool {
        &&& cells.len() == self.cell_count()
        &&& forall|i: int|
            0 <= i < cells.len() ==> #[trigger] cells[i] == self.tile_cell(i as nat, len)
    }
}

/// The product of a tensor by a constant tensor of any rank: every matrix of
/// the constant is packed beforehand into a tile of its own.
#[derive(Clone, Debug, PartialEq, Eq)]
pub struct MatMulUnaryImplA {
    /// The geometry of the product.
    pub geo: Geo,
    /// The number of elements of one packed tile.
    pub packed_b_len: usize,
    /// The shape of the buffer of packed tiles: the batch axes of the
    /// constant, then the elements of a tile.
    pub packed_bs_shape: Vec<usize>,
    /// The packing of each matrix of the constant, in row-major order.
    pub packing: Vec<PackJob>,
}

impl MatMulUnaryImplA {
    /// The geometry is well formed, the buffer of tiles can be allocated, and
    /// the packing covers every matrix of the constant.
    pub open spec fn wf(&self) -> bool {
        &&& self.geo.wf()
        &&& self.packed_bs_shape@ == self.geo@.packed_bs_shape(self.packed_b_len)
        &&& allocatable(self.packed_bs_shape@)
        &&& self.geo@.packing_is(self.packing@, self.packed_b_len)
    }

    /// Prepares the product of tensors of shape `a_shape` by the constant of
    /// shape `b_shape`, given the number of elements that the kernel packs
    /// one matrix of the constant into.
    ///
    /// Fails as the geometry does, and with an allocation error when the
    /// buffer of all tiles is too large to allocate.
    pub fn new(a_shape: &[usize], b_shape: &[usize], packed_b_len: usize) -> (r: Result<
        MatMulUnaryImplA,
        MatMulError,
    >)
        ensures
            r is Ok <==> {
                &&& inferable(a_shape@, b_shape@)
                &&& representable(a_shape@, b_shape@)
                &&& allocatable(geometry_of(a_shape@, b_shape@).packed_bs_shape(packed_b_len))
            },
            r matches Ok(op) ==> {
                &&& op.wf()
                &&& op.geo@ == geometry_of(a_shape@, b_shape@)
                &&& op.packed_b_len == packed_b_len
            },
            r matches Err(e) ==> e == (if inferable(a_shape@, b_shape@) {
                MatMulError::Allocation
            } else {
                MatMulError::Shape
            }),
    {
        let geo = match Geo::new(a_shape, b_shape) {
            Err(e) => {
                return Err(e);
            },
            Ok(geo) => geo,
        };
        proof {
            lemma_geo_invariants(geo@);
        }
        let rank: usize = geo.bc_b_shape.len();
        let b_prefix = leading(&geo.bc_b_shape, rank - 2);
        let mut packed_bs_shape = leading(&geo.bc_b_shape, rank - 2);
        packed_bs_shape.push(packed_b_len);
        assert(packed_bs_shape@ =~= geo@.packed_bs_shape(packed_b_len));
        if checked_volume(&packed_bs_shape).is_none() {
            return Err(MatMulError::Allocation);
        }
        proof {
            lemma_volume_split(geo@.bc_b_shape, rank - 2);
            assert(packed_bs_shape@.drop_last() =~= b_prefix@);
            lemma_volume_bounds(packed_bs_shape@);
        }
        let indices = row_major_indices(&b_prefix);
        let mut packing: Vec<PackJob> = Vec::new();
        let mut ix: usize = 0;
        while ix < indices.len()
            invariant
                ix <= indices.len(),
                geo.wf(),
                rank == geo@.rank(),
                rank >= 2,
                geo@.bc_b_shape.len() == rank,
                b_prefix@ == geo@.b_prefix(),
                allocatable(geo@.bc_b_shape),
                packed_bs_shape@ == geo@.packed_bs_shape(packed_b_len),
                product(packed_bs_shape@) <= isize::MAX,
                indices@.len() == geo@.tile_count(),
                forall|j: int|
                    0 <= j < indices@.len() ==> (#[trigger] indices@[j])@ == unravel(
                        geo@.b_prefix(),
                        j as nat,
                    ),
                packing@.len() == ix,
                forall|t: int|
                    0 <= t < ix ==> #[trigger] packing@[t] == geo@.pack_job(t as nat, packed_b_len),
            decreases indices.len() - ix,
        {
            let prefix = &indices[ix];
            proof {
                lemma_product_positive(b_prefix@);
                lemma_unravel_in_bounds(b_prefix@, ix as nat);
                assert(prefix@ == unravel(geo@.b_prefix(), ix as nat));
                assert forall|t: int| 0 <= t < prefix@.len() implies geo.bc_b_shape@[t] != 0 by {
                    assert(b_prefix@[t] == geo.bc_b_shape@[t]);
                }
                assert(packed_bs_shape@.drop_last() =~= b_prefix@);
                assert(ix * packed_b_len <= product(b_prefix@) * packed_b_len)
                    by (nonlinear_arith)
                    requires
                        ix < product(b_prefix@),
                ;
            }
            let src = operand_slice_at(&geo.bc_b_shape, prefix);
            packing.push(PackJob { src, dst: ix * packed_b_len });
            ix = ix + 1;
        }
        Ok(MatMulUnaryImplA { geo, packed_b_len, packed_bs_shape, packing })
    }

    /// The name of the operator.
    pub fn name(&self) -> (s: &'static str)
        ensures
            s@ == "MatMulUnaryImplA"@,
    {
        "MatMulUnaryImplA"
    }

    /// A description of the operator: the description of its kernel.
    pub fn info(&self, kernel: &str) -> (lines: Vec<String>)
        ensures
            lines@.len() == 1,
            lines@[0]@ == kernel@,
    {
        let mut lines: Vec<String> = Vec::new();
        lines.push(kernel.to_owned());
        lines
    }

    /// The cost of one evaluation: one fused multiply-add for each element
    /// of the result, in every batch cell, and each term of its sum.
    pub fn cost(&self, datum_type: DatumType) -> (costs: Vec<(Cost, u128)>)
        requires
            self.wf(),
        ensures
            self.geo@.fma_count() <= u128::MAX,
            costs@ == seq![(Cost::FMA(datum_type), self.geo@.fma_count() as u128)],
    {
        let mut costs: Vec<(Cost, u128)> = Vec::new();
        costs.push((Cost::FMA(datum_type), self.geo.fma_count()));
        assert(costs@ =~= seq![(Cost::FMA(datum_type), self.geo@.fma_count() as u128)]);
        costs
    }

    /// The work of every batch cell of an evaluation, in row-major order of
    /// the cells: the matrix of the left operand to pack, the tile of the
    /// constant that was packed for the cell, and the matrix of the result.
    /// No operation is fused behind the product.
    pub fn eval(&self) -> (cells: Vec<TileCell>)
        requires
            self.wf(),
        ensures
            self.geo@.tile_cells_are(cells@, self.packed_b_len),
    {
        proof {
            lemma_geo_invariants(self.geo@);
        }
        let indices = row_major_indices(&self.geo.c_shape_prefix);
        let mut cells: Vec<TileCell> = Vec::new();
        let mut i: usize = 0;
        while i < indices.len()
            invariant
                i <= indices.len(),
                self.wf(),
                indices@.len() == self.geo@.cell_count(),
                forall|j: int|
                    0 <= j < indices@.len() ==> (#[trigger] indices@[j])@ == self.geo@.cell_index(
                        j as nat,
                    ),
                cells@.len() == i,
                forall|j: int|
                    0 <= j < i ==> #[trigger] cells@[j] == self.geo@.tile_cell(
                        j as nat,
                        self.packed_b_len,
                    ),
            decreases indices.len() - i,
        {
            let cell = &indices[i];
            proof {
                let g = self.geo@;
                lemma_geo_invariants(g);
                lemma_cells_nonzero(g);
                lemma_unravel_in_bounds(g.c_shape_prefix, i as nat);
                assert(cell@ == g.cell_index(i as nat));
            }
            let a = operand_slice_at(&self.geo.bc_a_shape, cell);
            let tile: usize = clamped_position(&self.geo.bc_b_shape, cell);
            let c = operand_slice_at(&self.geo.c_shape, cell);
            proof {
                let g = self.geo@;
                assert(g.bc_b_shape.take(cell@.len() as int) == g.b_prefix());
                assert(tile == broadcast_position(g.bc_b_shape, cell@));
                assert(self.packed_bs_shape@.drop_last() =~= g.b_prefix());
                lemma_volume_bounds(self.packed_bs_shape@);
                assert(tile * self.packed_b_len <= product(g.b_prefix()) * self.packed_b_len)
                    by (nonlinear_arith)
                    requires
                        tile < product(g.b_prefix()),
                ;
            }
            cells.push(TileCell { a, packed_b: tile * self.packed_b_len, c });
            i = i + 1;
        }
        cells
    }
}


/// The product against tiles packed beforehand multiplies what the product
/// cell by cell does.
///
/// For every batch cell of the result, the matrix of the left operand and
/// the matrix of the result are those of the product cell by cell, and the
/// tile that is multiplied was packed from the very matrix of the constant
/// that the product cell by cell packs for that cell. Tiles lie one behind
/// the other in the buffer, each within it.
pub proof fn lemma_prepacked_is_batched(g: GeoView, len: usize, i: nat)
    requires
        g.wf(),
        allocatable(g.packed_bs_shape(len)),
        i < g.cell_count(),
    ensures
        ({
            let t = broadcast_position(g.bc_b_shape, g.cell_index(i));
            &&& t < g.tile_count()
            &&& g.tile_cell(i, len).a == g.cell(i).a
            &&& g.tile_cell(i, len).c == g.cell(i).c
            &&& g.tile_cell(i, len).packed_b == g.pack_job(t, len).dst
            &&& g.pack_job(t, len).src == g.cell(i).b
            &&& g.pack_job(t, len).dst == t * len
            &&& t * len + len <= product(g.packed_bs_shape(len))
        }),
{
    let cell = g.cell_index(i);
    let t = broadcast_position(g.bc_b_shape, cell);
    lemma_geo_invariants(g);
    lemma_cells_nonzero(g);
    lemma_unravel_in_bounds(g.c_shape_prefix, i);
    lemma_slice_in_bounds(g.bc_b_shape, cell);
    assert(g.bc_b_shape.take(cell.len() as int) == g.b_prefix());
    lemma_unbroadcast_position(g.bc_b_shape, g.b_prefix(), t);
    lemma_unravel_in_bounds(g.b_prefix(), t);
    let shape = g.packed_bs_shape(len);
    assert(shape.drop_last() =~= g.b_prefix());
    lemma_volume_bounds(shape);
    assert(t * len + len <= product(g.b_prefix()) * len) by (nonlinear_arith)
        requires
            t < product(g.b_prefix()),
    ;
    assert(t * len >= 0) by (nonlinear_arith);
}

/// The `t`-th matrix of the constant is packed from where it lies in the
/// constant, the matrices lying one behind the other.
pub proof fn lemma_pack_job_source(g: GeoView, len: usize, t: nat)
    requires
        g.wf(),
        t < g.tile_count(),
    ensures
        g.pack_job(t, len).src == (MatrixSlice {
            offset: (t * (g.k * g.n)) as usize,
            row_stride: g.n as isize,
            col_stride: 1,
        }),
        t * (g.k * g.n) + g.k * g.n <= product(g.bc_b_shape),
        product(g.bc_b_shape) <= isize::MAX,
{
    lemma_geo_invariants(g);
    lemma_product_positive(g.b_prefix());
    lemma_unravel_in_bounds(g.b_prefix(), t);
    lemma_unbroadcast_position(g.bc_b_shape, g.b_prefix(), t);
    let cell = unravel(g.b_prefix(), t);
    assert forall|j: int| 0 <= j < cell.len() implies g.bc_b_shape[j] != 0 by {
        assert(g.b_prefix()[j] == g.bc_b_shape[j]);
    }
    lemma_slice_in_bounds(g.bc_b_shape, cell);
}

} // verus!
