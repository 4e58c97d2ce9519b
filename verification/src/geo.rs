use vstd::prelude::*;
use vstd::slice::slice_to_vec;
use crate::error::MatMulError;
use crate::infer::{
    bc_a_shape, bc_b_shape, broadcast_dim, c_shape_of, common_rank, dims_broadcast, infer_shapes,
    inferable,
};
use crate::shape::{
    allocatable, batch_strides, checked_volume, lemma_volume_split, stride_prefix,
};

verus! {

/// The geometry of a batched matrix product: the normalized shapes of the two
/// operands and of the result, the dimensions of one matrix product, and the
/// strides of the batch axes.
#[derive(Clone, Debug, PartialEq, Eq)]
pub struct Geo {
    /// Rows of the left operand and of the result.
    pub m: usize,
    /// Columns of the left operand and rows of the right one.
    pub k: usize,
    /// Columns of the right operand and of the result.
    pub n: usize,
    /// The shape of the left operand as given.
    pub a_shape: Vec<usize>,
    /// The shape of the right operand as given.
    pub b_shape: Vec<usize>,
    /// The shape of the left operand, normalized to the common rank.
    pub bc_a_shape: Vec<usize>,
    /// The shape of the right operand, normalized to the common rank.
    pub bc_b_shape: Vec<usize>,
    /// The shape of the result.
    pub c_shape: Vec<usize>,
    /// The batch axes of the result: all but the last two.
    pub c_shape_prefix: Vec<usize>,
    /// Strides of the batch axes of the left operand, innermost first.
    pub a_stride_prefix: Vec<usize>,
    /// Strides of the batch axes of the right operand, innermost first.
    pub b_stride_prefix: Vec<usize>,
    /// Strides of the batch axes of the result, innermost first.
    pub c_stride_prefix: Vec<usize>,
}

/// The mathematical content of a [`Geo`].
pub struct GeoView {
    pub m: usize,
    pub k: usize,
    pub n: usize,
    pub a_shape: Seq<usize>,
    pub b_shape: Seq<usize>,
    pub bc_a_shape: Seq<usize>,
    pub bc_b_shape: Seq<usize>,
    pub c_shape: Seq<usize>,
    pub c_shape_prefix: Seq<usize>,
    pub a_stride_prefix: Seq<usize>,
    pub b_stride_prefix: Seq<usize>,
    pub c_stride_prefix: Seq<usize>,
}

impl View for Geo {
    type V = GeoView;

    open spec fn view(&self) -> GeoView {
        GeoView {
            m: self.m,
            k: self.k,
            n: self.n,
            a_shape: self.a_shape@,
            b_shape: self.b_shape@,
            bc_a_shape: self.bc_a_shape@,
            bc_b_shape: self.bc_b_shape@,
            c_shape: self.c_shape@,
            c_shape_prefix: self.c_shape_prefix@,
            a_stride_prefix: self.a_stride_prefix@,
            b_stride_prefix: self.b_stride_prefix@,
            c_stride_prefix: self.c_stride_prefix@,
        }
    }
}

/// The three normalized shapes of a product can all be allocated.
pub open spec fn representable(a: Seq<usize>, b: Seq<usize>) -> bool {
    &&& allocatable(bc_a_shape(a, b))
    &&& allocatable(bc_b_shape(a, b))
    &&& allocatable(c_shape_of(a, b))
}

/// The geometry that belongs to the operand shapes `a` and `b`.
pub open spec fn geometry_of(a: Seq<usize>, b: Seq<usize>) -> GeoView {
    let rank = common_rank(a, b) as int;
    let x = bc_a_shape(a, b);
    let y = bc_b_shape(a, b);
    let c = c_shape_of(a, b);
    GeoView {
        m: x[rank - 2],
        k: x[rank - 1],
        n: y[rank - 1],
        a_shape: a,
        b_shape: b,
        bc_a_shape: x,
        bc_b_shape: y,
        c_shape: c,
        c_shape_prefix: c.take(rank - 2),
        a_stride_prefix: stride_prefix(x),
        b_stride_prefix: stride_prefix(y),
        c_stride_prefix: stride_prefix(c),
    }
}

impl GeoView {
    /// The geometry is the one that belongs to its operand shapes, these can
    /// be multiplied, and every shape can be allocated.
    pub open spec fn wf(self) -> bool {
        &&& inferable(self.a_shape, self.b_shape)
        &&& representable(self.a_shape, self.b_shape)
        &&& self == geometry_of(self.a_shape, self.b_shape)
    }

    /// The common rank of the operands and the result.
    pub open spec fn rank(self) -> int {
        self.c_shape.len() as int
    }
}

/// What holds of every well-formed geometry: all three shapes have the same
/// rank, at least two; the columns of the left operand are the rows of the
/// right one; on every batch axis the operands have the same extent or one of
/// them has extent one, and the result has the extent that is not one; the
/// result has the rows of the left operand and the columns of the right one;
/// and every shape can be allocated.
pub proof fn lemma_geo_invariants(g: GeoView)
    requires
        g.wf(),
    ensures
        g.rank() >= 2,
        g.bc_a_shape.len() == g.rank(),
        g.bc_b_shape.len() == g.rank(),
        g.c_shape_prefix.len() == g.rank() - 2,
        g.c_shape_prefix == g.c_shape.take(g.rank() - 2),
        g.m == g.bc_a_shape[g.rank() - 2],
        g.k == g.bc_a_shape[g.rank() - 1],
        g.k == g.bc_b_shape[g.rank() - 2],
        g.n == g.bc_b_shape[g.rank() - 1],
        g.m == g.c_shape[g.rank() - 2],
        g.n == g.c_shape[g.rank() - 1],
        forall|t: int|
            0 <= t < g.rank() - 2 ==> dims_broadcast(#[trigger] g.bc_a_shape[t], g.bc_b_shape[t]),
        forall|t: int|
            0 <= t < g.rank() - 2 ==> #[trigger] g.c_shape[t] == broadcast_dim(
                g.bc_a_shape[t],
                g.bc_b_shape[t],
            ),
        allocatable(g.bc_a_shape),
        allocatable(g.bc_b_shape),
        allocatable(g.c_shape),
        allocatable(g.c_shape_prefix),
{
    lemma_volume_split(g.c_shape, g.rank() - 2);
}

/// Copies the first `len` entries of a vector.
pub fn leading(v: &Vec<usize>, len: usize) -> (r: Vec<usize>)
    requires
        len <= v.len(),
    ensures
        r@ == v@.take(len as int),
{
    let mut r: Vec<usize> = Vec::new();
    let mut i: usize = 0;
    while i < len
        invariant
            i <= len <= v.len(),
            r@ == v@.take(i as int),
        decreases len - i,
    {
        r.push(v[i]);
        i = i + 1;
        assert(r@ =~= v@.take(i as int));
    }
    r
}

impl Geo {
    /// The geometry is well formed: see [`GeoView::wf`].
    pub open spec fn wf(&self) -> bool {
        self@.wf()
    }

    /// Returns a copy of the geometry.
    pub fn dup(&self) -> (r: Geo)
        ensures
            r@ == self@,
    {
        let r = Geo {
            m: self.m,
            k: self.k,
            n: self.n,
            a_shape: leading(&self.a_shape, self.a_shape.len()),
            b_shape: leading(&self.b_shape, self.b_shape.len()),
            bc_a_shape: leading(&self.bc_a_shape, self.bc_a_shape.len()),
            bc_b_shape: leading(&self.bc_b_shape, self.bc_b_shape.len()),
            c_shape: leading(&self.c_shape, self.c_shape.len()),
            c_shape_prefix: leading(&self.c_shape_prefix, self.c_shape_prefix.len()),
            a_stride_prefix: leading(&self.a_stride_prefix, self.a_stride_prefix.len()),
            b_stride_prefix: leading(&self.b_stride_prefix, self.b_stride_prefix.len()),
            c_stride_prefix: leading(&self.c_stride_prefix, self.c_stride_prefix.len()),
        };
        proof {
            assert(r.a_shape@ =~= self.a_shape@);
            assert(r.b_shape@ =~= self.b_shape@);
            assert(r.bc_a_shape@ =~= self.bc_a_shape@);
            assert(r.bc_b_shape@ =~= self.bc_b_shape@);
            assert(r.c_shape@ =~= self.c_shape@);
            assert(r.c_shape_prefix@ =~= self.c_shape_prefix@);
            assert(r.a_stride_prefix@ =~= self.a_stride_prefix@);
            assert(r.b_stride_prefix@ =~= self.b_stride_prefix@);
            assert(r.c_stride_prefix@ =~= self.c_stride_prefix@);
        }
        r
    }

    /// Builds the geometry of the product of operands of shapes `a_shape` and
    /// `b_shape`.
    ///
    /// Fails with a shape error when the shapes cannot be multiplied, and
    /// with an allocation error when one of the normalized shapes has too
    /// many elements to be allocated.
    pub fn new(a_shape: &[usize], b_shape: &[usize]) -> (r: Result<Geo, MatMulError>)
        ensures
            r is Ok <==> inferable(a_shape@, b_shape@) && representable(a_shape@, b_shape@),
            r matches Ok(geo) ==> geo@ == geometry_of(a_shape@, b_shape@) && geo.wf(),
            r matches Err(e) ==> e == (if inferable(a_shape@, b_shape@) {
                MatMulError::Allocation
            } else {
                MatMulError::Shape
            }),
    {
        let shapes = infer_shapes(slice_to_vec(a_shape), slice_to_vec(b_shape));
        match shapes {
            Err(e) => Err(e),
            Ok((bc_a_shape, bc_b_shape, c_shape)) => {
                if checked_volume(&bc_a_shape).is_none() || checked_volume(&bc_b_shape).is_none()
                    || checked_volume(&c_shape).is_none() {
                    return Err(MatMulError::Allocation);
                }
                let rank: usize = bc_a_shape.len();
                let m: usize = bc_a_shape[rank - 2];
                let k: usize = bc_a_shape[rank - 1];
                let n: usize = bc_b_shape[rank - 1];
                let a_stride_prefix = batch_strides(&bc_a_shape);
                let b_stride_prefix = batch_strides(&bc_b_shape);
                let c_stride_prefix = batch_strides(&c_shape);
                let c_shape_prefix = leading(&c_shape, rank - 2);
                Ok(
                    Geo {
                        m,
                        k,
                        n,
                        a_shape: slice_to_vec(a_shape),
                        b_shape: slice_to_vec(b_shape),
                        bc_a_shape,
                        bc_b_shape,
                        c_shape,
                        c_shape_prefix,
                        a_stride_prefix,
                        b_stride_prefix,
                        c_stride_prefix,
                    },
                )
            },
        }
    }
}

} // verus!
