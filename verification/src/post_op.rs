use vstd::prelude::*;

verus! {

/// A pointwise operation that the kernel applies to each element of the
/// product before it writes it.
#[derive(Clone, Debug, PartialEq)]
pub enum PostOp<T> {
    /// Multiplies each column by its entry of the vector.
    PerColMul(Vec<T>),
    /// Adds to each column its entry of the vector.
    PerColAdd(Vec<T>),
    /// Replaces each element by the larger of itself and the scalar.
    Max(T),
    /// Replaces each element by the smaller of itself and the scalar.
    Min(T),
}

/// The mathematical content of a [`PostOp`].
pub enum PostOpView<T> {
    PerColMul(Seq<T>),
    PerColAdd(Seq<T>),
    Max(T),
    Min(T),
}

impl<T> View for PostOp<T> {
    type V = PostOpView<T>;

    open spec fn view(&self) -> PostOpView<T> {
        match *self {
            PostOp::PerColMul(v) => PostOpView::PerColMul(v@),
            PostOp::PerColAdd(v) => PostOpView::PerColAdd(v@),
            PostOp::Max(x) => PostOpView::Max(x),
            PostOp::Min(x) => PostOpView::Min(x),
        }
    }
}

impl<T> PostOpView<T> {
    /// A vector of the operation has one entry for each of `n` columns.
    pub open spec fn fits(self, n: usize) -> bool {
        match self {
            PostOpView::PerColMul(v) => v.len() == n,
            PostOpView::PerColAdd(v) => v.len() == n,
            _ => true,
        }
    }

    /// The line that describes the operation.
    pub open spec fn label(self) -> Seq<char> {
        match self {
            PostOpView::PerColMul(_) => " + PerColMul"@,
            PostOpView::PerColAdd(_) => " + PerColAdd"@,
            PostOpView::Max(_) => " + Max"@,
            PostOpView::Min(_) => " + Min"@,
        }
    }
}

/// The contents of a list of operations, in order.
pub open spec fn post_ops<T>(ops: Seq<PostOp<T>>) -> Seq<PostOpView<T>> {
    Seq::new(ops.len(), |i: int| ops[i]@)
}

/// Every operation of the list fits `n` columns.
pub open spec fn all_fit<T>(ops: Seq<PostOpView<T>>, n: usize) -> bool {
    forall|i: int| 0 <= i < ops.len() ==> (#[trigger] ops[i]).fits(n)
}

/// Copies a vector of values.
pub fn copy_values<T: Copy>(values: &Vec<T>) -> (r: Vec<T>)
    ensures
        r@ == values@,
{
    let mut r: Vec<T> = Vec::new();
    let mut i: usize = 0;
    while i < values.len()
        invariant
            i <= values.len(),
            r@ == values@.take(i as int),
        decreases values.len() - i,
    {
        r.push(values[i]);
        i = i + 1;
        assert(r@ =~= values@.take(i as int));
    }
    assert(values@.take(values.len() as int) =~= values@);
    r
}

impl<T: Copy> PostOp<T> {
    /// Returns a copy of the operation.
    pub fn dup(&self) -> (r: PostOp<T>)
        ensures
            r@ == self@,
    {
        match self {
            PostOp::PerColMul(v) => PostOp::PerColMul(copy_values(v)),
            PostOp::PerColAdd(v) => PostOp::PerColAdd(copy_values(v)),
            PostOp::Max(x) => PostOp::Max(*x),
            PostOp::Min(x) => PostOp::Min(*x),
        }
    }

    /// The line that describes the operation.
    pub fn label(&self) -> (s: &'static str)
        ensures
            s@ == self@.label(),
    {
        match self {
            PostOp::PerColMul(_) => " + PerColMul",
            PostOp::PerColAdd(_) => " + PerColAdd",
            PostOp::Max(_) => " + Max",
            PostOp::Min(_) => " + Min",
        }
    }
}

/// Copies a list of operations.
pub fn dup_post_ops<T: Copy>(ops: &Vec<PostOp<T>>) -> (r: Vec<PostOp<T>>)
    ensures
        post_ops(r@) == post_ops(ops@),
{
    let mut r: Vec<PostOp<T>> = Vec::new();
    let mut i: usize = 0;
    while i < ops.len()
        invariant
            i <= ops.len(),
            r@.len() == i,
            forall|j: int| 0 <= j < i ==> (#[trigger] r@[j])@ == ops@[j]@,
        decreases ops.len() - i,
    {
        r.push(ops[i].dup());
        i = i + 1;
    }
    assert(post_ops(r@) =~= post_ops(ops@));
    r
}

/// The elementwise binary operators, as far as fusion tells them apart.
#[derive(Clone, Copy, Debug, PartialEq, Eq, Structural)]
pub enum BinaryOp {
    /// Multiplication.
    Mul,
    /// Addition.
    Add,
    /// Any other operator.
    Other,
}

/// What fusion reads of the operator that consumes the product.
#[derive(Clone, Debug, PartialEq)]
pub enum Successor<T> {
    /// An elementwise binary operator whose second operand is a constant of
    /// shape `b_shape`; `b` holds the elements of the constant where they
    /// are of the element type of the product.
    Binary { op: BinaryOp, b_shape: Vec<usize>, b: Option<Vec<T>> },
    /// The larger of each element and a scalar.
    ScalarMax(T),
    /// The smaller of each element and a scalar.
    ScalarMin(T),
    /// Each element clamped between `lo` and `hi`.
    ScalarMinMax { lo: T, hi: T },
    /// Any other operator.
    Other,
}

/// The mathematical content of a [`Successor`].
pub enum SuccessorView<T> {
    Binary { op: BinaryOp, b_shape: Seq<usize>, b: Option<Seq<T>> },
    ScalarMax(T),
    ScalarMin(T),
    ScalarMinMax { lo: T, hi: T },
    Other,
}

impl<T> View for Successor<T> {
    type V = SuccessorView<T>;

    open spec fn view(&self) -> SuccessorView<T> {
        match *self {
            Successor::Binary { op, b_shape, b } => SuccessorView::Binary {
                op,
                b_shape: b_shape@,
                b: match b {
                    Some(v) => Some(v@),
                    None => None,
                },
            },
            Successor::ScalarMax(x) => SuccessorView::ScalarMax(x),
            Successor::ScalarMin(x) => SuccessorView::ScalarMin(x),
            Successor::ScalarMinMax { lo, hi } => SuccessorView::ScalarMinMax { lo, hi },
            Successor::Other => SuccessorView::Other,
        }
    }
}

impl<T> SuccessorView<T> {
    /// The successor multiplies or adds a constant with one entry for each of
    /// `n` columns.
    pub open spec fn per_column(self, n: usize) -> bool {
        match self {
            SuccessorView::Binary { op, b_shape, b } => b_shape == seq![n] && op
                != BinaryOp::Other,
            _ => false,
        }
    }

    /// The successor works per column on a constant whose elements are not
    /// of the element type of the product, or not `n` of them: it cannot be
    /// fused and it cannot be left alone.
    pub open spec fn mistyped(self, n: usize) -> bool {
        match self {
            SuccessorView::Binary { op, b_shape, b } => self.per_column(n) && match b {
                Some(v) => v.len() != n,
                None => true,
            },
            _ => false,
        }
    }

    /// The operations that the kernel applies in place of the successor, if
    /// it can be fused into a product of `n` columns.
    pub open spec fn fused(self, n: usize) -> Option<Seq<PostOpView<T>>> {
        match self {
            SuccessorView::Binary { op, b_shape, b } => if self.per_column(n) && b is Some
                && b->Some_0.len() == n {
                if op == BinaryOp::Mul {
                    Some(seq![PostOpView::PerColMul(b->Some_0)])
                } else {
                    Some(seq![PostOpView::PerColAdd(b->Some_0)])
                }
            } else {
                None
            },
            SuccessorView::ScalarMax(x) => Some(seq![PostOpView::Max(x)]),
            SuccessorView::ScalarMin(x) => Some(seq![PostOpView::Min(x)]),
            SuccessorView::ScalarMinMax { lo, hi } => Some(
                seq![PostOpView::Min(hi), PostOpView::Max(lo)],
            ),
            SuccessorView::Other => None,
        }
    }
}


/// The arithmetic of the elements, as far as the fused operations use it.
#[verifier::reject_recursive_types(T)]
pub struct Arithmetic<T> {
    /// The product of two elements.
    pub mul: spec_fn(T, T) -> T,
    /// The sum of two elements.
    pub add: spec_fn(T, T) -> T,
    /// The larger of two elements.
    pub max: spec_fn(T, T) -> T,
    /// The smaller of two elements.
    pub min: spec_fn(T, T) -> T,
}

impl<T> PostOpView<T> {
    /// What the operation makes of the element `x` in column `col`.
    pub open spec fn apply(self, ar: Arithmetic<T>, x: T, col: int) -> T {
        match self {
            PostOpView::PerColMul(v) => (ar.mul)(x, v[col]),
            PostOpView::PerColAdd(v) => (ar.add)(x, v[col]),
            PostOpView::Max(s) => (ar.max)(x, s),
            PostOpView::Min(s) => (ar.min)(x, s),
        }
    }
}

/// What a list of operations, applied in order, makes of the element `x` in
/// column `col`.
pub open spec fn apply_post_ops<T>(
    ops: Seq<PostOpView<T>>,
    ar: Arithmetic<T>,
    x: T,
    col: int,
) -> T
    decreases ops.len(),
{
    if ops.len() == 0 {
        x
    } else {
        ops.last().apply(ar, apply_post_ops(ops.drop_last(), ar, x, col), col)
    }
}

impl<T> SuccessorView<T> {
    /// What a successor that can be fused makes of the element `x` in column
    /// `col` when it runs as an operator of its own: the product or the sum
    /// with the entry of the constant for the column, the maximum or the
    /// minimum with the scalar, or the element clamped between `lo` and `hi`.
    pub open spec fn apply(self, ar: Arithmetic<T>, x: T, col: int) -> T {
        match self {
            SuccessorView::Binary { op, b_shape, b } => if op == BinaryOp::Mul {
                (ar.mul)(x, b->Some_0[col])
            } else {
                (ar.add)(x, b->Some_0[col])
            },
            SuccessorView::ScalarMax(s) => (ar.max)(x, s),
            SuccessorView::ScalarMin(s) => (ar.min)(x, s),
            SuccessorView::ScalarMinMax { lo, hi } => (ar.min)((ar.max)(x, lo), hi),
            SuccessorView::Other => x,
        }
    }

    /// Bounding `x` from above and then from below gives what bounding it
    /// from below and then from above gives, as it does for every element
    /// where `lo` is not above `hi`.
    pub open spec fn bounds_commute(self, ar: Arithmetic<T>, x: T) -> bool {
        match self {
            SuccessorView::ScalarMinMax { lo, hi } => (ar.max)((ar.min)(x, hi), lo) == (ar.min)(
                (ar.max)(x, lo),
                hi,
            ),
            _ => true,
        }
    }
}

/// Fusion keeps the meaning of the graph: the operations fused so far
/// followed by those that stand for the successor make of every element what
/// the successor makes of the result of the operations fused so far.
///
/// For a clamp this holds of the elements on which the two bounds commute.
pub proof fn lemma_fusion_keeps_meaning<T>(
    fused_so_far: Seq<PostOpView<T>>,
    succ: SuccessorView<T>,
    n: usize,
    ar: Arithmetic<T>,
    x: T,
    col: int,
)
    requires
        succ.fused(n) is Some,
        succ.bounds_commute(ar, apply_post_ops(fused_so_far, ar, x, col)),
    ensures
        apply_post_ops(fused_so_far + succ.fused(n)->Some_0, ar, x, col) == succ.apply(
            ar,
            apply_post_ops(fused_so_far, ar, x, col),
            col,
        ),
{
    let appended = succ.fused(n)->Some_0;
    let all = fused_so_far + appended;
    let before = apply_post_ops(fused_so_far, ar, x, col);
    if appended.len() == 1 {
        assert(all.drop_last() =~= fused_so_far);
        assert(all.last() == appended[0]);
        assert(apply_post_ops(all, ar, x, col) == appended[0].apply(ar, before, col));
    } else {
        assert(appended.len() == 2);
        let first = fused_so_far.push(appended[0]);
        assert(all.drop_last() =~= first);
        assert(first.drop_last() =~= fused_so_far);
        assert(all.last() == appended[1]);
        assert(first.last() == appended[0]);
        assert(apply_post_ops(first, ar, x, col) == appended[0].apply(ar, before, col));
        assert(apply_post_ops(all, ar, x, col) == appended[1].apply(
            ar,
            apply_post_ops(first, ar, x, col),
            col,
        ));
    }
}

} // verus!
