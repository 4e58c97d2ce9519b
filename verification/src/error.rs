use vstd::prelude::*;

verus! {

/// The ways in which a matrix-multiplication operator can refuse its inputs.
#[derive(Clone, Copy, Debug, PartialEq, Eq, Structural)]
pub enum MatMulError {
    /// The operator was not given exactly two inputs and one output.
    Arity,
    /// The operands differ in element type, or the element type is not a
    /// supported floating-point type.
    TypeMismatch,
    /// The inner dimensions disagree, the batch prefixes do not broadcast, or
    /// both operands are scalars.
    Shape,
    /// Streaming was asked for along the innermost axis of the left operand.
    Pulsify,
    /// A tensor of the resulting shape has more elements than can be allocated.
    Allocation,
    /// No kernel is available for the element type and dimensions.
    MmmUnavailable,
}

impl MatMulError {
    /// A short human-readable description of the error.
    pub fn message(&self) -> (s: &'static str)
        ensures
            s@ == match *self {
                MatMulError::Arity => "MatMul expects two inputs and one output"@,
                MatMulError::TypeMismatch => "operands must share a floating-point element type"@,
                MatMulError::Shape => "operand shapes can not be multiplied"@,
                MatMulError::Pulsify => "Can not pulsify MatMulUnaryA on the most inner dimension (k)"@,
                MatMulError::Allocation => "result tensor is too large to allocate"@,
                MatMulError::MmmUnavailable => "no matrix multiplication kernel for these operands"@,
            },
    {
        match *self {
            MatMulError::Arity => "MatMul expects two inputs and one output",
            MatMulError::TypeMismatch => "operands must share a floating-point element type",
            MatMulError::Shape => "operand shapes can not be multiplied",
            MatMulError::Pulsify => "Can not pulsify MatMulUnaryA on the most inner dimension (k)",
            MatMulError::Allocation => "result tensor is too large to allocate",
            MatMulError::MmmUnavailable => "no matrix multiplication kernel for these operands",
        }
    }
}

} // verus!
