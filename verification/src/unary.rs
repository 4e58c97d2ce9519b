use vstd::prelude::*;
use crate::datum::{as_finite, dup_shape, is_finite, sizes_of, DatumType, TensorInfo};
use crate::dim::DimLike;
use crate::error::MatMulError;
use crate::general::MatMulUnaryImplA;
use crate::geo::{geometry_of, representable};
use crate::infer::{c_shape_of, infer_shapes, inferable, lemma_common_rank, normalize_a, pad_left};
use crate::mat_mul::{eval_typed, Evaluation};
use crate::shape::allocatable;
use crate::simple_b::{collapsed_a_shape, MatMulUnaryImplASimpleB};

verus! {

/// A symmetry of an operator: shifting its input along `axis` by `period`
/// shifts its output alike.
#[derive(Clone, Copy, Debug, PartialEq, Eq, Structural)]
pub struct TranslationInvariant {
    /// The axis along which the input is shifted.
    pub axis: usize,
    /// The length of the shift.
    pub period: usize,
}

/// What is known of a tensor that streams along one axis: the shape of one
/// pulse, the streaming axis, and the length of the whole stream along it.
#[derive(Clone, Debug, PartialEq, Eq)]
pub struct PulsedTensorFact<D> {
    /// The element type.
    pub datum_type: DatumType,
    /// The shape of one pulse.
    pub shape: Vec<usize>,
    /// The streaming axis.
    pub axis: usize,
    /// The length of the stream along the streaming axis.
    pub dim: D,
    /// The delay of the stream.
    pub delay: usize,
}

/// The symbolic dimensions that stand for concrete sizes.
pub open spec fn dims_of<D: DimLike>(shape: Seq<usize>) -> Seq<D> {
    Seq::new(shape.len(), |i: int| D::of_size(shape[i]))
}

/// The shape of a whole stream: that of a pulse, with the length of the
/// stream on the streaming axis.
pub open spec fn streaming_shape_of<D: DimLike>(shape: Seq<usize>, axis: usize, dim: D) -> Seq<D> {
    Seq::new(
        shape.len(),
        |i: int|
            if i == axis {
                dim
            } else {
                D::of_size(shape[i])
            },
    )
}

/// Turns concrete sizes into dimensions.
pub fn to_dims<D: DimLike>(shape: &Vec<usize>) -> (r: Vec<D>)
    ensures
        r@ == dims_of::<D>(shape@),
{
    let mut r: Vec<D> = Vec::new();
    let mut i: usize = 0;
    while i < shape.len()
        invariant
            i <= shape.len(),
            r@.len() == i,
            forall|j: int| 0 <= j < i ==> #[trigger] r@[j] == D::of_size(shape@[j]),
        decreases shape.len() - i,
    {
        r.push(D::from_size(shape[i]));
        i = i + 1;
    }
    assert(r@ =~= dims_of::<D>(shape@));
    r
}

impl<D: DimLike> PulsedTensorFact<D> {
    /// The shape of the whole stream.
    pub fn streaming_shape(&self) -> (r: Vec<D>)
        ensures
            r@ == streaming_shape_of(self.shape@, self.axis, self.dim),
    {
        let mut r: Vec<D> = Vec::new();
        let mut i: usize = 0;
        while i < self.shape.len()
            invariant
                i <= self.shape.len(),
                r@.len() == i,
                forall|j: int|
                    0 <= j < i ==> #[trigger] r@[j] == streaming_shape_of(
                        self.shape@,
                        self.axis,
                        self.dim,
                    )[j],
            decreases self.shape.len() - i,
        {
            if i == self.axis {
                r.push(self.dim.dup());
            } else {
                r.push(D::from_size(self.shape[i]));
            }
            i = i + 1;
        }
        assert(r@ =~= streaming_shape_of(self.shape@, self.axis, self.dim));
        r
    }
}

/// What code generation chooses for a product by a constant.
#[derive(Clone, Debug, PartialEq)]
pub enum UnaryAImpl<T> {
    /// The constant is a matrix: one product over the collapsed left operand.
    SimpleB(MatMulUnaryImplASimpleB<T>),
    /// The constant has any other rank: one product for each batch cell.
    General(MatMulUnaryImplA),
}

/// The invariants of a product by a constant of shape `b`, for a result of
/// `rank` axes: one for each batch axis, of the period that the constant has
/// on that axis, and one of period one for the axis of the rows.
pub open spec fn invariants_of(b: Seq<usize>, rank: usize) -> Seq<TranslationInvariant> {
    if b.len() > rank {
        Seq::empty()
    } else {
        Seq::new(
            (rank - 1) as nat,
            |axis: int|
                if axis < rank - 2 {
                    TranslationInvariant {
                        axis: axis as usize,
                        period: pad_left::<usize>(b, rank as nat)[axis],
                    }
                } else {
                    TranslationInvariant { axis: (rank - 2) as usize, period: 1 }
                },
        )
    }
}

/// The product of a tensor by a constant right operand.
#[derive(Clone, Debug, PartialEq, Eq)]
pub struct MatMulUnaryA {
    /// What is known of the constant: its element type and its shape.
    pub b: TensorInfo<usize>,
}

impl MatMulUnaryA {
    /// The product by the constant `b`.
    pub fn new(b: TensorInfo<usize>) -> (op: MatMulUnaryA)
        ensures
            op.b == b,
    {
        MatMulUnaryA { b }
    }

    /// The name of the operator.
    pub fn name(&self) -> (s: &'static str)
        ensures
            s@ == "MatMulUnaryA"@,
    {
        "MatMulUnaryA"
    }

    /// Chooses the implementation of the product for left operands of shape
    /// `a_shape`: against a constant matrix the collapsed single product,
    /// against any other constant the product with one tile for each matrix
    /// of the constant, each of `packed_b_len` elements.
    pub fn codegen<T: Copy>(&self, a_shape: &[usize], packed_b_len: usize) -> (r: Result<
        Option<UnaryAImpl<T>>,
        MatMulError,
    >)
        ensures
            r is Ok <==> {
                &&& inferable(a_shape@, self.b.shape@)
                &&& representable(a_shape@, self.b.shape@)
                &&& self.b.shape@.len() != 2 ==> allocatable(
                    geometry_of(a_shape@, self.b.shape@).packed_bs_shape(packed_b_len),
                )
            },
            r matches Ok(chosen) ==> chosen is Some && match chosen->Some_0 {
                UnaryAImpl::SimpleB(op) => {
                    &&& self.b.shape@.len() == 2
                    &&& op.wf()
                    &&& op.a_shape@ == a_shape@
                    &&& op.geo@ == geometry_of(
                        collapsed_a_shape(a_shape@, self.b.shape@),
                        self.b.shape@,
                    )
                    &&& op.c_shape@ == c_shape_of(a_shape@, self.b.shape@)
                    &&& op.non_linear@.len() == 0
                },
                UnaryAImpl::General(op) => {
                    &&& self.b.shape@.len() != 2
                    &&& op.wf()
                    &&& op.geo@ == geometry_of(a_shape@, self.b.shape@)
                    &&& op.packed_b_len == packed_b_len
                },
            },
            r matches Err(e) ==> e == (if inferable(a_shape@, self.b.shape@) {
                MatMulError::Allocation
            } else {
                MatMulError::Shape
            }),
    {
        if self.b.shape.len() == 2 {
            match MatMulUnaryImplASimpleB::<T>::new(a_shape, self.b.shape.as_slice()) {
                Err(e) => Err(e),
                Ok(op) => Ok(Some(UnaryAImpl::SimpleB(op))),
            }
        } else {
            match MatMulUnaryImplA::new(a_shape, self.b.shape.as_slice(), packed_b_len) {
                Err(e) => Err(e),
                Ok(op) => Ok(Some(UnaryAImpl::General(op))),
            }
        }
    }

    /// Chooses the implementation of the product once the shape of the left
    /// operand is known in full: until every dimension of it has a concrete
    /// size there is nothing to choose, and the element type must be a
    /// floating-point type.
    pub fn codegen_fact<T: Copy, D: DimLike>(
        &self,
        input: &TensorInfo<D>,
        packed_b_len: usize,
    ) -> (r: Result<Option<UnaryAImpl<T>>, MatMulError>)
        ensures
            !is_finite(input.shape@) ==> r == Ok::<Option<UnaryAImpl<T>>, MatMulError>(None),
            is_finite(input.shape@) ==> {
                let a_shape = sizes_of(input.shape@);
                &&& r is Ok <==> {
                    &&& input.datum_type.floating()
                    &&& inferable(a_shape, self.b.shape@)
                    &&& representable(a_shape, self.b.shape@)
                    &&& self.b.shape@.len() != 2 ==> allocatable(
                        geometry_of(a_shape, self.b.shape@).packed_bs_shape(packed_b_len),
                    )
                }
                &&& r matches Ok(chosen) ==> chosen is Some && match chosen->Some_0 {
                    UnaryAImpl::SimpleB(op) => {
                        &&& self.b.shape@.len() == 2
                        &&& op.wf()
                        &&& op.a_shape@ == a_shape
                        &&& op.geo@ == geometry_of(
                            collapsed_a_shape(a_shape, self.b.shape@),
                            self.b.shape@,
                        )
                        &&& op.c_shape@ == c_shape_of(a_shape, self.b.shape@)
                        &&& op.non_linear@.len() == 0
                    },
                    UnaryAImpl::General(op) => {
                        &&& self.b.shape@.len() != 2
                        &&& op.wf()
                        &&& op.geo@ == geometry_of(a_shape, self.b.shape@)
                        &&& op.packed_b_len == packed_b_len
                    },
                }
                &&& r matches Err(e) ==> e == (if !input.datum_type.floating() {
                    MatMulError::TypeMismatch
                } else if inferable(a_shape, self.b.shape@) {
                    MatMulError::Allocation
                } else {
                    MatMulError::Shape
                })
            },
    {
        match as_finite(&input.shape) {
            None => Ok(None),
            Some(a_shape) => {
                if !input.datum_type.is_float() {
                    return Err(MatMulError::TypeMismatch);
                }
                self.codegen::<T>(a_shape.as_slice(), packed_b_len)
            },
        }
    }

    /// What is known of the result when the left operand streams along one
    /// of its axes.
    ///
    /// Streaming along the innermost axis of the left operand is refused:
    /// every element of the result sums over that whole axis. Otherwise the
    /// pulse of the result has the shape inferred from the pulse of the
    /// operand, and the stream of the result has, on the streaming axis, the
    /// length inferred from the whole stream of the operand.
    pub fn pulsify<D: DimLike>(&self, fact: &PulsedTensorFact<D>) -> (r: Result<
        PulsedTensorFact<D>,
        MatMulError,
    >)
        ensures
            r is Ok <==> {
                &&& fact.axis + 1 < fact.shape@.len()
                &&& inferable(fact.shape@, self.b.shape@)
                &&& inferable(
                    streaming_shape_of(fact.shape@, fact.axis, fact.dim),
                    dims_of::<D>(self.b.shape@),
                )
            },
            r matches Ok(out) ==> {
                &&& out.datum_type == fact.datum_type
                &&& out.axis == fact.axis
                &&& out.delay == fact.delay
                &&& out.shape@ == c_shape_of(fact.shape@, self.b.shape@)
                &&& fact.axis < c_shape_of(
                    streaming_shape_of(fact.shape@, fact.axis, fact.dim),
                    dims_of::<D>(self.b.shape@),
                ).len()
                &&& out.dim == c_shape_of(
                    streaming_shape_of(fact.shape@, fact.axis, fact.dim),
                    dims_of::<D>(self.b.shape@),
                )[fact.axis as int]
            },
            r matches Err(e) ==> e == (if fact.axis + 1 >= fact.shape@.len() {
                MatMulError::Pulsify
            } else {
                MatMulError::Shape
            }),
            fact.axis == fact.shape@.len() - 1 ==> r == Err::<PulsedTensorFact<D>, MatMulError>(
                MatMulError::Pulsify,
            ),
    {
        if fact.shape.len() == 0 || fact.axis >= fact.shape.len() - 1 {
            return Err(MatMulError::Pulsify);
        }
        let cshape_pulse = match infer_shapes(dup_shape(&fact.shape), dup_shape(&self.b.shape)) {
            Err(e) => {
                return Err(e);
            },
            Ok((_, _, c)) => c,
        };
        let cshape_full = match infer_shapes(fact.streaming_shape(), to_dims::<D>(&self.b.shape)) {
            Err(e) => {
                return Err(e);
            },
            Ok((_, _, c)) => c,
        };
        proof {
            let full = streaming_shape_of(fact.shape@, fact.axis, fact.dim);
            lemma_common_rank(full, dims_of::<D>(self.b.shape@));
            assert(normalize_a(full).len() >= full.len());
        }
        Ok(
            PulsedTensorFact {
                datum_type: fact.datum_type,
                shape: cshape_pulse,
                axis: fact.axis,
                dim: cshape_full[fact.axis].dup(),
                delay: fact.delay,
            },
        )
    }

    /// The translation invariants of the product, for a result of `rank`
    /// axes.
    pub fn translation_invariants(&self, rank: usize) -> (invars: Vec<TranslationInvariant>)
        requires
            rank >= 2,
        ensures
            invars@ == invariants_of(self.b.shape@, rank),
    {
        let mut invars: Vec<TranslationInvariant> = Vec::new();
        if self.b.shape.len() > rank {
            assert(invars@ =~= invariants_of(self.b.shape@, rank));
            return invars;
        }
        let pad: usize = rank - self.b.shape.len();
        let mut axis: usize = 0;
        while axis < rank - 2
            invariant
                axis <= rank - 2,
                rank >= 2,
                self.b.shape@.len() <= rank,
                pad == rank - self.b.shape@.len(),
                invars@.len() == axis,
                forall|j: int|
                    0 <= j < axis ==> #[trigger] invars@[j] == invariants_of(self.b.shape@, rank)[j],
            decreases rank - 2 - axis,
        {
            let period: usize = if axis < pad { 1 } else { self.b.shape[axis - pad] };
            invars.push(TranslationInvariant { axis, period });
            axis = axis + 1;
        }
        invars.push(TranslationInvariant { axis: rank - 2, period: 1 });
        assert(invars@ =~= invariants_of(self.b.shape@, rank));
        invars
    }

    /// Plans the product of the tensor `a` by the constant.
    pub fn eval(&self, a: &TensorInfo<usize>) -> (r: Result<Evaluation, MatMulError>)
        ensures
            r is Ok <==> a.datum_type.floating() && a.datum_type == self.b.datum_type && inferable(
                a.shape@,
                self.b.shape@,
            ) && representable(a.shape@, self.b.shape@),
            r matches Ok(ev) ==> {
                &&& ev.datum_type == a.datum_type
                &&& ev.plan.geo@ == geometry_of(a.shape@, self.b.shape@)
                &&& ev.plan.geo.c_shape@ == c_shape_of(a.shape@, self.b.shape@)
                &&& ev.plan.wf()
            },
            r matches Err(e) ==> e == (if !a.datum_type.floating() || a.datum_type
                != self.b.datum_type {
                MatMulError::TypeMismatch
            } else if !inferable(a.shape@, self.b.shape@) {
                MatMulError::Shape
            } else {
                MatMulError::Allocation
            }),
    {
        eval_typed(a, &self.b)
    }
}

/// The product of a constant left operand by a tensor.
#[derive(Clone, Debug, PartialEq, Eq)]
pub struct MatMulUnaryB {
    /// What is known of the constant: its element type and its shape.
    pub a: TensorInfo<usize>,
}

impl MatMulUnaryB {
    /// The product of the constant `a`.
    pub fn new(a: TensorInfo<usize>) -> (op: MatMulUnaryB)
        ensures
            op.a == a,
    {
        MatMulUnaryB { a }
    }

    /// The name of the operator.
    pub fn name(&self) -> (s: &'static str)
        ensures
            s@ == "MatMulUnaryB"@,
    {
        "MatMulUnaryB"
    }

    /// Plans the product of the constant by the tensor `b`. The constant is
    /// packed anew for each cell, as a tensor given at run time would be.
    pub fn eval(&self, b: &TensorInfo<usize>) -> (r: Result<Evaluation, MatMulError>)
        ensures
            r is Ok <==> b.datum_type.floating() && self.a.datum_type == b.datum_type && inferable(
                self.a.shape@,
                b.shape@,
            ) && representable(self.a.shape@, b.shape@),
            r matches Ok(ev) ==> {
                &&& ev.datum_type == b.datum_type
                &&& ev.plan.geo@ == geometry_of(self.a.shape@, b.shape@)
                &&& ev.plan.geo.c_shape@ == c_shape_of(self.a.shape@, b.shape@)
                &&& ev.plan.wf()
            },
            r matches Err(e) ==> e == (if !b.datum_type.floating() || self.a.datum_type
                != b.datum_type {
                MatMulError::TypeMismatch
            } else if !inferable(self.a.shape@, b.shape@) {
                MatMulError::Shape
            } else {
                MatMulError::Allocation
            }),
    {
        eval_typed(&self.a, b)
    }
}

} // verus!
