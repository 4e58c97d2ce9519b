use vstd::prelude::*;
use crate::dim::DimLike;
use crate::error::MatMulError;

verus! {

/// The left operand with at least two axes: a vector is a single row.
pub open spec fn normalize_a<D: DimLike>(a: Seq<D>) -> Seq<D> {
    if a.len() < 2 {
        seq![D::unit()] + a
    } else {
        a
    }
}

/// The right operand with at least two axes: a vector is a single column.
pub open spec fn normalize_b<D: DimLike>(b: Seq<D>) -> Seq<D> {
    if b.len() < 2 {
        b.push(D::unit())
    } else {
        b
    }
}

/// `count` unit dimensions.
pub open spec fn units<D: DimLike>(count: nat) -> Seq<D> {
    Seq::new(count, |i: int| D::unit())
}

/// A shape padded on the left with unit dimensions up to `rank` axes.
pub open spec fn pad_left<D: DimLike>(shape: Seq<D>, rank: nat) -> Seq<D> {
    if shape.len() >= rank {
        shape
    } else {
        units::<D>((rank - shape.len()) as nat) + shape
    }
}

/// The rank that both operands and the result have after normalization.
pub open spec fn common_rank<D: DimLike>(a: Seq<D>, b: Seq<D>) -> nat {
    if normalize_a(a).len() >= normalize_b(b).len() {
        normalize_a(a).len()
    } else {
        normalize_b(b).len()
    }
}

/// The shape of the left operand once ranks are matched.
pub open spec fn bc_a_shape<D: DimLike>(a: Seq<D>, b: Seq<D>) -> Seq<D> {
    pad_left(normalize_a(a), common_rank(a, b))
}

/// The shape of the right operand once ranks are matched.
pub open spec fn bc_b_shape<D: DimLike>(a: Seq<D>, b: Seq<D>) -> Seq<D> {
    pad_left(normalize_b(b), common_rank(a, b))
}

/// Two dimensions broadcast against each other: they are equal or one of
/// them is the unit dimension.
pub open spec fn dims_broadcast<D: DimLike>(x: D, y: D) -> bool {
    x == y || x == D::unit() || y == D::unit()
}

/// The dimension that two broadcasting dimensions give: the one that is not
/// the unit dimension.
pub open spec fn broadcast_dim<D: DimLike>(x: D, y: D) -> D {
    if x == D::unit() {
        y
    } else {
        x
    }
}

/// The first `len` axes of two shapes broadcast against each other.
pub open spec fn prefixes_broadcast<D: DimLike>(x: Seq<D>, y: Seq<D>, len: int) -> bool {
    forall|i: int| 0 <= i < len ==> dims_broadcast(#[trigger] x[i], y[i])
}

/// The shapes of two operands can be multiplied: they are not both scalars,
/// their batch prefixes broadcast, and the columns of the left operand are as
/// many as the rows of the right one.
pub open spec fn inferable<D: DimLike>(a: Seq<D>, b: Seq<D>) -> bool {
    let rank = common_rank(a, b) as int;
    let x = bc_a_shape(a, b);
    let y = bc_b_shape(a, b);
    &&& rank >= 2
    &&& prefixes_broadcast(x, y, rank - 2)
    &&& x[rank - 1] == y[rank - 2]
}

/// The shape of the product: the broadcast batch prefix, then the rows of the
/// left operand and the columns of the right one.
pub open spec fn c_shape_of<D: DimLike>(a: Seq<D>, b: Seq<D>) -> Seq<D> {
    let rank = common_rank(a, b);
    let x = bc_a_shape(a, b);
    let y = bc_b_shape(a, b);
    Seq::new(
        rank,
        |i: int|
            if i < rank - 2 {
                broadcast_dim(x[i], y[i])
            } else if i == rank - 2 {
                x[i]
            } else {
                y[i]
            },
    )
}

/// Padding keeps a shape at the end and puts unit dimensions before it.
pub proof fn lemma_pad_left<D: DimLike>(shape: Seq<D>, rank: nat)
    requires
        shape.len() <= rank,
    ensures
        pad_left(shape, rank).len() == rank,
        pad_left(shape, rank).skip(rank - shape.len()) == shape,
        pad_left(shape, rank).take(rank - shape.len()) == units::<D>((rank - shape.len()) as nat),
        forall|t: int| 0 <= t < rank - shape.len() ==> #[trigger] pad_left(shape, rank)[t] == D::unit(),
        forall|t: int|
            0 <= t < shape.len() ==> #[trigger] pad_left(shape, rank)[rank - shape.len() + t]
                == shape[t],
{
    let padded = pad_left(shape, rank);
    assert(padded.skip(rank - shape.len()) =~= shape);
    assert(padded.take(rank - shape.len()) =~= units::<D>((rank - shape.len()) as nat));
}

/// Both normalized operand shapes have the common rank.
pub proof fn lemma_common_rank<D: DimLike>(a: Seq<D>, b: Seq<D>)
    ensures
        bc_a_shape(a, b).len() == common_rank(a, b),
        bc_b_shape(a, b).len() == common_rank(a, b),
        c_shape_of(a, b).len() == common_rank(a, b),
        common_rank(a, b) >= 1,
        common_rank(a, b) >= 2 <==> !(a.len() == 0 && b.len() == 0),
{
    lemma_pad_left(normalize_a(a), common_rank(a, b));
    lemma_pad_left(normalize_b(b), common_rank(a, b));
}

/// Over concrete sizes, two axes that broadcast and are not empty give the
/// larger of their extents. An empty axis against an axis of extent one gives
/// the empty axis.
pub proof fn lemma_broadcast_is_max(x: usize, y: usize)
    requires
        dims_broadcast(x, y),
    ensures
        x != 0 && y != 0 ==> broadcast_dim(x, y) == (if x >= y {
            x
        } else {
            y
        }),
        x == 0 || y == 0 ==> broadcast_dim(x, y) == 0,
{
}

/// Broadcasts the first `len` axes of two shapes against each other.
///
/// The result is the broadcast prefix, or nothing when on some axis the two
/// dimensions differ and neither is the unit dimension.
pub fn multi_broadcast<D: DimLike>(x: &Vec<D>, y: &Vec<D>, len: usize) -> (r: Option<Vec<D>>)
    requires
        len <= x.len(),
        len <= y.len(),
    ensures
        r is Some <==> prefixes_broadcast(x@, y@, len as int),
        r matches Some(p) ==> {
            &&& p@.len() == len
            &&& forall|i: int| 0 <= i < len ==> #[trigger] p@[i] == broadcast_dim(x@[i], y@[i])
        },
{
    let one = D::one();
    let mut shape: Vec<D> = Vec::new();
    let mut i: usize = 0;
    while i < len
        invariant
            i <= len,
            len <= x.len(),
            len <= y.len(),
            one == D::unit(),
            shape@.len() == i,
            prefixes_broadcast(x@, y@, i as int),
            forall|j: int| 0 <= j < i ==> #[trigger] shape@[j] == broadcast_dim(x@[j], y@[j]),
        decreases len - i,
    {
        let x_is_one = x[i].same(&one);
        let y_is_one = y[i].same(&one);
        if !x_is_one && !y_is_one && !x[i].same(&y[i]) {
            assert(!dims_broadcast(x@[i as int], y@[i as int]));
            return None;
        }
        let wanted = if x_is_one { y[i].dup() } else { x[i].dup() };
        shape.push(wanted);
        i = i + 1;
    }
    Some(shape)
}

/// Pads a shape on the left with unit dimensions up to `rank` axes.
fn pad_to_rank<D: DimLike>(shape: Vec<D>, rank: usize) -> (r: Vec<D>)
    ensures
        r@ == pad_left(shape@, rank as nat),
{
    let mut padded = shape;
    while padded.len() < rank
        invariant
            shape@.len() <= padded@.len(),
            shape@.len() < rank ==> padded@.len() <= rank,
            shape@.len() >= rank ==> padded@.len() == shape@.len(),
            padded@ == units::<D>((padded@.len() - shape@.len()) as nat) + shape@,
        decreases rank - padded.len(),
    {
        padded.insert(0, D::one());
        assert(padded@ =~= units::<D>((padded@.len() - shape@.len()) as nat) + shape@);
    }
    assert(shape@.len() >= rank ==> padded@ =~= shape@);
    padded
}

/// Normalizes the shapes of the two operands of a matrix product and infers
/// the shape of the result.
///
/// An operand of fewer than two axes gets a unit axis (in front for the left
/// operand, behind for the right one), the operand of lower rank is padded on
/// the left with unit axes, the batch prefixes are broadcast, and the result
/// has the broadcast prefix followed by the rows of the left operand and the
/// columns of the right one. The three shapes returned are those of the left
/// operand, of the right operand and of the result.
pub fn infer_shapes<D: DimLike>(ashape: Vec<D>, bshape: Vec<D>) -> (r: Result<
    (Vec<D>, Vec<D>, Vec<D>),
    MatMulError,
>)
    ensures
        r is Ok <==> inferable(ashape@, bshape@),
        r matches Ok(shapes) ==> {
            &&& shapes.0@ == bc_a_shape(ashape@, bshape@)
            &&& shapes.1@ == bc_b_shape(ashape@, bshape@)
            &&& shapes.2@ == c_shape_of(ashape@, bshape@)
        },
        r matches Err(e) ==> e == MatMulError::Shape,
{
    let ghost a0 = ashape@;
    let ghost b0 = bshape@;
    let mut a = ashape;
    let mut b = bshape;
    if a.len() < 2 {
        a.insert(0, D::one());
        assert(a@ =~= normalize_a(a0));
    }
    if b.len() < 2 {
        b.push(D::one());
    }
    assert(a@ == normalize_a(a0));
    assert(b@ == normalize_b(b0));
    let rank: usize = if a.len() >= b.len() { a.len() } else { b.len() };
    let a = pad_to_rank(a, rank);
    let b = pad_to_rank(b, rank);
    assert(a@ == bc_a_shape(a0, b0));
    assert(b@ == bc_b_shape(a0, b0));
    assert(a@.len() == rank && b@.len() == rank);
    if rank < 2 {
        return Err(MatMulError::Shape);
    }
    if !a[rank - 1].same(&b[rank - 2]) {
        return Err(MatMulError::Shape);
    }
    let prefix = multi_broadcast(&a, &b, rank - 2);
    match prefix {
        None => Err(MatMulError::Shape),
        Some(p) => {
            let mut c = p;
            c.push(a[rank - 2].dup());
            c.push(b[rank - 1].dup());
            assert(c@ =~= c_shape_of(a0, b0));
            Ok((a, b, c))
        },
    }
}

} // verus!
