use vstd::prelude::*;
use crate::datum::{dup_shape, Cost, DatumType, TensorInfo};
use crate::dim::DimLike;
use crate::error::MatMulError;
use crate::eval::{eval_t, EvalPlan};
use crate::geo::{geometry_of, lemma_geo_invariants, representable, Geo, GeoView};
use crate::infer::{c_shape_of, infer_shapes, inferable};
use crate::shape::{
    element_count, lemma_extent_le_volume, lemma_product_last_two, lemma_volume_bounds,
    lemma_volume_split, product,
};

verus! {

impl GeoView {
    /// The number of fused multiply-adds of the product: one for each
    /// element of the result and each of the `k` terms of its sum.
    pub open spec fn fma_count(self) -> nat {
        product(self.c_shape_prefix) * (self.m as nat) * (self.k as nat) * (self.n as nat)
    }
}

impl Geo {
    /// The number of fused multiply-adds of the product.
    pub fn fma_count(&self) -> (count: u128)
        requires
            self.wf(),
        ensures
            count == self@.fma_count(),
    {
        proof {
            let g = self@;
            let rank = g.rank();
            lemma_geo_invariants(g);
            lemma_product_last_two(g.c_shape);
            lemma_volume_bounds(g.c_shape);
            lemma_volume_split(g.c_shape, rank - 1);
            lemma_extent_le_volume(g.bc_a_shape, rank - 1);
            let cells = product(g.c_shape_prefix);
            let (m, k, n) = (g.m as nat, g.k as nat, g.n as nat);
            let rows = g.c_shape.take(rank - 1);
            assert(rows.drop_last() =~= g.c_shape_prefix);
            assert(product(rows) == cells * m);
            let limit = isize::MAX as nat;
            assert(cells * m * k <= limit * limit) by (nonlinear_arith)
                requires
                    cells * m <= limit,
                    k <= limit,
            ;
            assert(cells * m * k * n == cells * (m * n) * k) by (nonlinear_arith);
            assert(cells * (m * n) * k <= limit * limit) by (nonlinear_arith)
                requires
                    cells * (m * n) <= limit,
                    k <= limit,
            ;
            assert(limit * limit <= u128::MAX) by (nonlinear_arith)
                requires
                    limit <= 0x7fff_ffff_ffff_ffff,
            ;
        }
        let cells: usize = element_count(&self.c_shape_prefix);
        let rows: u128 = (cells as u128) * (self.m as u128);
        let terms: u128 = rows * (self.k as u128);
        terms * (self.n as u128)
    }
}

/// The plan of an evaluation together with the element type of its result.
#[derive(Clone, Debug, PartialEq, Eq)]
pub struct Evaluation {
    /// The element type of the operands and of the result.
    pub datum_type: DatumType,
    /// The geometry and the work of each batch cell.
    pub plan: EvalPlan,
}

/// Checks that two operands have one floating-point element type, and plans
/// their product.
pub fn eval_typed(a: &TensorInfo<usize>, b: &TensorInfo<usize>) -> (r: Result<
    Evaluation,
    MatMulError,
>)
    ensures
        r is Ok <==> a.datum_type.floating() && a.datum_type == b.datum_type && inferable(
            a.shape@,
            b.shape@,
        ) && representable(a.shape@, b.shape@),
        r matches Ok(ev) ==> {
            &&& ev.datum_type == a.datum_type
            &&& ev.plan.geo@ == geometry_of(a.shape@, b.shape@)
            &&& ev.plan.geo.c_shape@ == c_shape_of(a.shape@, b.shape@)
            &&& ev.plan.wf()
        },
        r matches Err(e) ==> e == (if !a.datum_type.floating() || a.datum_type != b.datum_type {
            MatMulError::TypeMismatch
        } else if !inferable(a.shape@, b.shape@) {
            MatMulError::Shape
        } else {
            MatMulError::Allocation
        }),
{
    if !a.datum_type.is_float() || a.datum_type != b.datum_type {
        return Err(MatMulError::TypeMismatch);
    }
    match eval_t(a.shape.as_slice(), b.shape.as_slice()) {
        Err(e) => Err(e),
        Ok(plan) => Ok(Evaluation { datum_type: a.datum_type, plan }),
    }
}

/// The product of two tensors that are both given when the graph runs.
#[derive(Clone, Copy, Debug, PartialEq, Eq)]
pub struct MatMul {}

impl MatMul {
    /// The operator.
    pub fn new() -> (op: MatMul)
        ensures
            op == (MatMul {  }),
    {
        MatMul {  }
    }

    /// The name of the operator.
    pub fn name(&self) -> (s: &'static str)
        ensures
            s@ == "MatMul"@,
    {
        "MatMul"
    }

    /// The cost of the product of two tensors: its fused multiply-adds, over
    /// the element type of the left operand.
    pub fn cost(&self, a: &TensorInfo<usize>, b: &TensorInfo<usize>) -> (r: Result<
        Vec<(Cost, u128)>,
        MatMulError,
    >)
        ensures
            r is Ok <==> inferable(a.shape@, b.shape@) && representable(a.shape@, b.shape@),
            r matches Ok(costs) ==> costs@ == seq![
                (Cost::FMA(a.datum_type), geometry_of(a.shape@, b.shape@).fma_count() as u128),
            ] && geometry_of(a.shape@, b.shape@).fma_count() <= u128::MAX,
            r matches Err(e) ==> e == (if inferable(a.shape@, b.shape@) {
                MatMulError::Allocation
            } else {
                MatMulError::Shape
            }),
    {
        match Geo::new(a.shape.as_slice(), b.shape.as_slice()) {
            Err(e) => Err(e),
            Ok(geo) => {
                let mut costs: Vec<(Cost, u128)> = Vec::new();
                costs.push((Cost::FMA(a.datum_type), geo.fma_count()));
                assert(costs@ =~= seq![(Cost::FMA(a.datum_type), geo@.fma_count() as u128)]);
                Ok(costs)
            },
        }
    }

    /// Plans the product of the tensors `a` and `b`.
    ///
    /// The operands must have the same floating-point element type, which is
    /// then that of the result; the result has the inferred shape.
    pub fn eval(&self, a: &TensorInfo<usize>, b: &TensorInfo<usize>) -> (r: Result<
        Evaluation,
        MatMulError,
    >)
        ensures
            r is Ok <==> a.datum_type.floating() && a.datum_type == b.datum_type && inferable(
                a.shape@,
                b.shape@,
            ) && representable(a.shape@, b.shape@),
            r matches Ok(ev) ==> {
                &&& ev.datum_type == a.datum_type
                &&& ev.plan.geo@ == geometry_of(a.shape@, b.shape@)
                &&& ev.plan.geo.c_shape@ == c_shape_of(a.shape@, b.shape@)
                &&& ev.plan.wf()
            },
            r matches Err(e) ==> e == (if !a.datum_type.floating() || a.datum_type
                != b.datum_type {
                MatMulError::TypeMismatch
            } else if !inferable(a.shape@, b.shape@) {
                MatMulError::Shape
            } else {
                MatMulError::Allocation
            }),
    {
        eval_typed(a, b)
    }

    /// Infers what is known of the result from what is known of the inputs.
    ///
    /// There must be two inputs and one output. The inputs and the output
    /// have one element type, and the shape of the output is inferred from
    /// the shapes of the inputs, over concrete or symbolic dimensions alike.
    pub fn rules<D: DimLike>(&self, inputs: &Vec<TensorInfo<D>>, outputs: usize) -> (r: Result<
        TensorInfo<D>,
        MatMulError,
    >)
        ensures
            r is Ok <==> {
                &&& inputs@.len() == 2
                &&& outputs == 1
                &&& inputs@[0].datum_type == inputs@[1].datum_type
                &&& inferable(inputs@[0].shape@, inputs@[1].shape@)
            },
            r matches Ok(out) ==> {
                &&& out.datum_type == inputs@[0].datum_type
                &&& out.shape@ == c_shape_of(inputs@[0].shape@, inputs@[1].shape@)
            },
            r matches Err(e) ==> e == (if inputs@.len() != 2 || outputs != 1 {
                MatMulError::Arity
            } else if inputs@[0].datum_type != inputs@[1].datum_type {
                MatMulError::TypeMismatch
            } else {
                MatMulError::Shape
            }),
    {
        if inputs.len() != 2 || outputs != 1 {
            return Err(MatMulError::Arity);
        }
        if inputs[0].datum_type != inputs[1].datum_type {
            return Err(MatMulError::TypeMismatch);
        }
        match infer_shapes(dup_shape(&inputs[0].shape), dup_shape(&inputs[1].shape)) {
            Err(e) => Err(e),
            Ok((_, _, c_shape)) => Ok(
                TensorInfo { datum_type: inputs[0].datum_type, shape: c_shape },
            ),
        }
    }
}

} // verus!
