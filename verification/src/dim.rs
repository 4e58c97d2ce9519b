use vstd::prelude::*;

verus! {

/// A tensor dimension: either a concrete size or a symbolic one.
///
/// Shape inference only ever asks three things of a dimension: what the unit
/// dimension is, whether two dimensions are equal, and how to copy one. Code
/// generation also asks whether a dimension has become a concrete size.
pub trait DimLike: Sized {
    /// The dimension of extent one.
    spec fn unit() -> Self;

    /// The dimension that stands for a concrete size.
    spec fn of_size(n: usize) -> Self;

    /// The concrete size of the dimension, where it has one.
    spec fn as_size(self) -> Option<usize>;

    /// Returns the unit dimension.
    fn one() -> (d: Self)
        ensures
            d == Self::unit(),
    ;

    /// Returns the dimension that stands for the concrete size `n`.
    fn from_size(n: usize) -> (d: Self)
        ensures
            d == Self::of_size(n),
    ;

    /// Tells whether two dimensions are equal.
    fn same(&self, other: &Self) -> (r: bool)
        ensures
            r == (*self == *other),
    ;

    /// Returns a copy of the dimension.
    fn dup(&self) -> (d: Self)
        ensures
            d == *self,
    ;

    /// Returns the concrete size of the dimension, where it has one.
    fn finite(&self) -> (n: Option<usize>)
        ensures
            n == self.as_size(),
    ;
}

impl DimLike for usize {
    open spec fn unit() -> usize {
        1
    }

    open spec fn of_size(n: usize) -> usize {
        n
    }

    open spec fn as_size(self) -> Option<usize> {
        Some(self)
    }

    fn one() -> (d: usize) {
        1
    }

    fn from_size(n: usize) -> (d: usize) {
        n
    }

    fn same(&self, other: &usize) -> (r: bool) {
        *self == *other
    }

    fn dup(&self) -> (d: usize) {
        *self
    }

    fn finite(&self) -> (n: Option<usize>) {
        Some(*self)
    }
}


/// A dimension that may depend on the length `S` of a stream: it stands for
/// `slope * S + constant`. Two such dimensions are equal when they have the
/// same slope and the same constant.
#[derive(Clone, Copy, Debug, PartialEq, Eq, Structural)]
pub struct TDim {
    /// How many times the length of the stream is counted.
    pub slope: usize,
    /// The part that does not depend on the stream.
    pub constant: usize,
}

impl TDim {
    /// The length of the stream itself.
    pub fn s() -> (d: TDim)
        ensures
            d == (TDim { slope: 1, constant: 0 }),
    {
        TDim { slope: 1, constant: 0 }
    }
}

impl DimLike for TDim {
    open spec fn unit() -> TDim {
        TDim { slope: 0, constant: 1 }
    }

    open spec fn of_size(n: usize) -> TDim {
        TDim { slope: 0, constant: n }
    }

    open spec fn as_size(self) -> Option<usize> {
        if self.slope == 0 {
            Some(self.constant)
        } else {
            None
        }
    }

    fn one() -> (d: TDim) {
        TDim { slope: 0, constant: 1 }
    }

    fn from_size(n: usize) -> (d: TDim) {
        TDim { slope: 0, constant: n }
    }

    fn same(&self, other: &TDim) -> (r: bool) {
        self.slope == other.slope && self.constant == other.constant
    }

    fn dup(&self) -> (d: TDim) {
        *self
    }

    fn finite(&self) -> (n: Option<usize>) {
        if self.slope == 0 {
            Some(self.constant)
        } else {
            None
        }
    }
}

} // verus!
