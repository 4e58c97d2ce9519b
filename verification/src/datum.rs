use vstd::prelude::*;
use crate::dim::DimLike;

verus! {

/// The element type of a tensor.
#[derive(Clone, Copy, Debug, PartialEq, Eq, Structural)]
pub enum DatumType {
    Bool,
    U8,
    U16,
    I8,
    I16,
    I32,
    I64,
    F16,
    F32,
    F64,
}

impl DatumType {
    /// The element type is a floating-point type.
    pub open spec fn floating(self) -> bool {
        self == DatumType::F16 || self == DatumType::F32 || self == DatumType::F64
    }

    /// Tells whether the element type is a floating-point type, the only
    /// kind of element that matrices are multiplied over.
    pub fn is_float(&self) -> (r: bool)
        ensures
            r == self.floating(),
    {
        match *self {
            DatumType::F16 | DatumType::F32 | DatumType::F64 => true,
            _ => false,
        }
    }
}

/// A kind of cost of an operator.
#[derive(Clone, Copy, Debug, PartialEq, Eq, Structural)]
pub enum Cost {
    /// Fused multiply-adds over elements of the given type.
    FMA(DatumType),
}

/// What is known of a tensor before it is computed: its element type and its
/// shape, over concrete or symbolic dimensions.
#[derive(Clone, Debug, PartialEq, Eq)]
pub struct TensorInfo<D> {
    /// The element type.
    pub datum_type: DatumType,
    /// The shape.
    pub shape: Vec<D>,
}

/// Every dimension of the shape has a concrete size.
pub open spec fn is_finite<D: DimLike>(shape: Seq<D>) -> bool {
    forall|i: int| 0 <= i < shape.len() ==> (#[trigger] shape[i]).as_size() is Some
}

/// The concrete sizes of the dimensions of a finite shape.
pub open spec fn sizes_of<D: DimLike>(shape: Seq<D>) -> Seq<usize> {
    Seq::new(shape.len(), |i: int| shape[i].as_size()->Some_0)
}

/// Copies a shape.
pub fn dup_shape<D: DimLike>(shape: &Vec<D>) -> (r: Vec<D>)
    ensures
        r@ == shape@,
{
    let mut r: Vec<D> = Vec::new();
    let mut i: usize = 0;
    while i < shape.len()
        invariant
            i <= shape.len(),
            r@ == shape@.take(i as int),
        decreases shape.len() - i,
    {
        r.push(shape[i].dup());
        i = i + 1;
        assert(r@ =~= shape@.take(i as int));
    }
    assert(shape@.take(shape.len() as int) =~= shape@);
    r
}

/// The concrete sizes of a shape, once every dimension of it has one.
pub fn as_finite<D: DimLike>(shape: &Vec<D>) -> (r: Option<Vec<usize>>)
    ensures
        r is Some <==> is_finite(shape@),
        r matches Some(sizes) ==> sizes@ == sizes_of(shape@),
{
    let mut sizes: Vec<usize> = Vec::new();
    let mut i: usize = 0;
    while i < shape.len()
        invariant
            i <= shape.len(),
            sizes@.len() == i,
            forall|j: int| 0 <= j < i ==> (#[trigger] shape@[j]).as_size() == Some(sizes@[j]),
        decreases shape.len() - i,
    {
        match shape[i].finite() {
            None => {
                return None;
            },
            Some(n) => {
                sizes.push(n);
            },
        }
        i = i + 1;
    }
    assert(sizes@ =~= sizes_of(shape@));
    Some(sizes)
}

} // verus!
