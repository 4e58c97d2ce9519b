use vstd::prelude::*;
use vstd::arithmetic::mul::lemma_mul_is_associative;

verus! {

/// The number of elements of a tensor of the given shape.
pub open spec fn product(shape: Seq<usize>) -> nat
    decreases shape.len(),
{
    if shape.len() == 0 {
        1
    } else {
        product(shape.drop_last()) * (shape.last() as nat)
    }
}

/// The extent that an axis contributes to the volume: at least one.
pub open spec fn extent(d: usize) -> nat {
    if d == 0 {
        1
    } else {
        d as nat
    }
}

/// The product of the non-zero extents of a shape.
///
/// It bounds the element count of the shape and of every shape made of some
/// of its axes, so a shape whose volume is representable has representable
/// strides, cell counts and offsets.
pub open spec fn volume(shape: Seq<usize>) -> nat
    decreases shape.len(),
{
    if shape.len() == 0 {
        1
    } else {
        volume(shape.drop_last()) * extent(shape.last())
    }
}

/// A tensor of this shape can be allocated: its volume does not exceed the
/// largest signed offset of the machine.
pub open spec fn allocatable(shape: Seq<usize>) -> bool {
    volume(shape) <= isize::MAX
}

/// The row-major stride of `axis`: the element count of the axes after it.
pub open spec fn stride(shape: Seq<usize>, axis: int) -> nat {
    product(shape.skip(axis + 1))
}

/// The row-major strides of the batch axes of a shape (all axes but the last
/// two), innermost batch axis first.
pub open spec fn stride_prefix(shape: Seq<usize>) -> Seq<usize> {
    Seq::new(
        (shape.len() - 2) as nat,
        |j: int| stride(shape, shape.len() - 3 - j) as usize,
    )
}

/// The volume is at least one and at least the element count.
pub proof fn lemma_volume_bounds(shape: Seq<usize>)
    ensures
        1 <= volume(shape),
        product(shape) <= volume(shape),
    decreases shape.len(),
{
    if shape.len() > 0 {
        let rest = shape.drop_last();
        lemma_volume_bounds(rest);
        let d = shape.last() as nat;
        let e = extent(shape.last());
        assert(1 <= volume(rest) * e) by (nonlinear_arith)
            requires
                1 <= volume(rest),
                1 <= e,
        ;
        assert(product(rest) * d <= volume(rest) * e) by (nonlinear_arith)
            requires
                product(rest) <= volume(rest),
                d <= e,
        ;
    }
}

/// Element counts multiply over concatenation.
pub proof fn lemma_product_concat(a: Seq<usize>, b: Seq<usize>)
    ensures
        product(a + b) == product(a) * product(b),
    decreases b.len(),
{
    if b.len() == 0 {
        assert(a + b =~= a);
        assert(product(a) * 1 == product(a)) by (nonlinear_arith);
    } else {
        assert((a + b).drop_last() =~= a + b.drop_last());
        assert((a + b).last() == b.last());
        lemma_product_concat(a, b.drop_last());
        lemma_mul_is_associative(
            product(a) as int,
            product(b.drop_last()) as int,
            b.last() as int,
        );
    }
}

/// Volumes multiply over concatenation.
pub proof fn lemma_volume_concat(a: Seq<usize>, b: Seq<usize>)
    ensures
        volume(a + b) == volume(a) * volume(b),
    decreases b.len(),
{
    if b.len() == 0 {
        assert(a + b =~= a);
        assert(volume(a) * 1 == volume(a)) by (nonlinear_arith);
    } else {
        assert((a + b).drop_last() =~= a + b.drop_last());
        assert((a + b).last() == b.last());
        lemma_volume_concat(a, b.drop_last());
        let e = extent(b.last()) as int;
        lemma_mul_is_associative(volume(a) as int, volume(b.drop_last()) as int, e);
    }
}

/// Taking some leading or trailing axes of a shape does not increase the
/// volume.
pub proof fn lemma_volume_split(shape: Seq<usize>, axis: int)
    requires
        0 <= axis <= shape.len(),
    ensures
        volume(shape) == volume(shape.take(axis)) * volume(shape.skip(axis)),
        volume(shape.take(axis)) <= volume(shape),
        volume(shape.skip(axis)) <= volume(shape),
        product(shape.take(axis)) <= volume(shape),
        product(shape.skip(axis)) <= volume(shape),
        product(shape) == product(shape.take(axis)) * product(shape.skip(axis)),
{
    let head = shape.take(axis);
    let tail = shape.skip(axis);
    assert(head + tail =~= shape);
    lemma_volume_concat(head, tail);
    lemma_product_concat(head, tail);
    lemma_volume_bounds(head);
    lemma_volume_bounds(tail);
    assert(volume(head) <= volume(head) * volume(tail) && volume(tail) <= volume(head) * volume(
        tail,
    )) by (nonlinear_arith)
        requires
            volume(head) >= 1,
            volume(tail) >= 1,
    ;
}

/// The element count of a shape is its first extent times the element count
/// of the axes after it.
pub proof fn lemma_product_skip(shape: Seq<usize>, axis: int)
    requires
        0 <= axis < shape.len(),
    ensures
        product(shape.skip(axis)) == (shape[axis] as nat) * product(shape.skip(axis + 1)),
{
    let head = seq![shape[axis]];
    assert(head + shape.skip(axis + 1) =~= shape.skip(axis));
    lemma_product_concat(head, shape.skip(axis + 1));
    assert(head.drop_last() =~= Seq::<usize>::empty());
    assert(product(head) == product(head.drop_last()) * (head.last() as nat));
    assert(product(head) == shape[axis] as nat) by (nonlinear_arith)
        requires
            product(head) == 1 * (shape[axis] as nat),
    ;
}

/// A shape with an empty axis has no element.
pub proof fn lemma_product_zero(shape: Seq<usize>, axis: int)
    requires
        0 <= axis < shape.len(),
        shape[axis] == 0,
    ensures
        product(shape) == 0,
    decreases shape.len(),
{
    if axis == shape.len() - 1 {
        assert(product(shape.drop_last()) * 0 == 0) by (nonlinear_arith);
    } else {
        lemma_product_zero(shape.drop_last(), axis);
        assert(0 * (shape.last() as nat) == 0) by (nonlinear_arith);
    }
}

/// A shape with at least one element has no empty axis.
pub proof fn lemma_product_positive(shape: Seq<usize>)
    requires
        product(shape) > 0,
    ensures
        forall|t: int| 0 <= t < shape.len() ==> shape[t] != 0,
{
    assert forall|t: int| 0 <= t < shape.len() implies shape[t] != 0 by {
        if shape[t] == 0 {
            lemma_product_zero(shape, t);
        }
    }
}

/// No extent of a shape exceeds its volume.
pub proof fn lemma_extent_le_volume(shape: Seq<usize>, axis: int)
    requires
        0 <= axis < shape.len(),
    ensures
        shape[axis] <= volume(shape),
    decreases shape.len(),
{
    lemma_volume_bounds(shape.drop_last());
    let e = extent(shape.last());
    if axis == shape.len() - 1 {
        assert(shape.last() <= volume(shape.drop_last()) * e) by (nonlinear_arith)
            requires
                volume(shape.drop_last()) >= 1,
                shape.last() <= e,
        ;
    } else {
        lemma_extent_le_volume(shape.drop_last(), axis);
        assert(volume(shape.drop_last()) <= volume(shape.drop_last()) * e) by (nonlinear_arith)
            requires
                e >= 1,
        ;
    }
}

/// The last two axes of a shape hold as many elements as the product of
/// their extents.
pub proof fn lemma_product_last_two(shape: Seq<usize>)
    requires
        shape.len() >= 2,
    ensures
        product(shape.skip(shape.len() - 2)) == shape[shape.len() - 2] * shape[shape.len() - 1],
        product(shape) == product(shape.take(shape.len() - 2)) * (shape[shape.len() - 2]
            * shape[shape.len() - 1]),
{
    let rank = shape.len() as int;
    lemma_product_skip(shape, rank - 2);
    lemma_product_skip(shape, rank - 1);
    assert(shape.skip(rank) =~= Seq::<usize>::empty());
    assert(product(shape.skip(rank)) == 1);
    assert(product(shape.skip(rank - 1)) == shape[rank - 1]) by (nonlinear_arith)
        requires
            product(shape.skip(rank - 1)) == (shape[rank - 1] as nat) * 1,
    ;
    lemma_volume_split(shape, rank - 2);
}

/// The element count and the volume of a matrix.
pub proof fn lemma_matrix_shape(rows: usize, cols: usize)
    ensures
        product(seq![rows, cols]) == rows * cols,
        volume(seq![rows, cols]) == extent(rows) * extent(cols),
{
    let s = seq![rows, cols];
    assert(s.drop_last() =~= seq![rows]);
    assert(s.drop_last().drop_last() =~= Seq::<usize>::empty());
    assert(s.last() == cols);
    assert(s.drop_last().last() == rows);
    let head = s.drop_last();
    assert(product(head.drop_last()) == 1);
    assert(volume(head.drop_last()) == 1);
    assert(product(head) == product(head.drop_last()) * (rows as nat));
    assert(volume(head) == volume(head.drop_last()) * extent(rows));
    assert(product(s) == product(s.drop_last()) * (cols as nat));
    assert(volume(s) == volume(s.drop_last()) * extent(cols));
}

/// A shape made of ones has one element and volume one.
pub proof fn lemma_unit_shape(shape: Seq<usize>)
    requires
        forall|t: int| 0 <= t < shape.len() ==> shape[t] == 1,
    ensures
        product(shape) == 1,
        volume(shape) == 1,
    decreases shape.len(),
{
    if shape.len() > 0 {
        lemma_unit_shape(shape.drop_last());
    }
}

/// Unit axes in front of a shape change neither its element count nor its
/// volume.
pub proof fn lemma_leading_units(shape: Seq<usize>, axis: int)
    requires
        0 <= axis <= shape.len(),
        forall|t: int| 0 <= t < axis ==> shape[t] == 1,
    ensures
        product(shape) == product(shape.skip(axis)),
        volume(shape) == volume(shape.skip(axis)),
{
    lemma_unit_shape(shape.take(axis));
    lemma_volume_split(shape, axis);
    assert(1 * product(shape.skip(axis)) == product(shape.skip(axis))) by (nonlinear_arith);
    assert(1 * volume(shape.skip(axis)) == volume(shape.skip(axis))) by (nonlinear_arith);
}

/// The volume of a shape when it can be allocated.
pub fn checked_volume(shape: &Vec<usize>) -> (r: Option<usize>)
    ensures
        r is Some <==> allocatable(shape@),
        r is Some ==> r->Some_0 == volume(shape@),
{
    let limit: usize = isize::MAX as usize;
    let mut acc: usize = 1;
    let mut i: usize = 0;
    while i < shape.len()
        invariant
            i <= shape.len(),
            limit == isize::MAX,
            acc == volume(shape@.take(i as int)),
            1 <= acc <= limit,
        decreases shape.len() - i,
    {
        let d: usize = if shape[i] == 0 { 1 } else { shape[i] };
        proof {
            let next = shape@.take(i as int + 1);
            assert(next.drop_last() =~= shape@.take(i as int));
            assert(next.last() == shape@[i as int]);
            assert(volume(next) == acc * d);
            lemma_volume_split(shape@, i as int + 1);
            assert(acc * d >= 1) by (nonlinear_arith)
                requires
                    acc >= 1,
                    d >= 1,
            ;
        }
        if d > limit / acc {
            proof {
                assert(acc * d > limit) by (nonlinear_arith)
                    requires
                        d > limit / acc,
                        acc >= 1,
                ;
            }
            return None;
        }
        proof {
            assert(acc * d <= limit) by (nonlinear_arith)
                requires
                    d <= limit / acc,
                    acc >= 1,
            ;
        }
        acc = acc * d;
        i = i + 1;
    }
    proof {
        assert(shape@.take(shape.len() as int) =~= shape@);
    }
    Some(acc)
}

/// The number of elements of a shape that can be allocated.
pub fn element_count(shape: &Vec<usize>) -> (n: usize)
    requires
        allocatable(shape@),
    ensures
        n == product(shape@),
{
    let mut acc: usize = 1;
    let mut i: usize = 0;
    while i < shape.len()
        invariant
            i <= shape.len(),
            allocatable(shape@),
            acc == product(shape@.take(i as int)),
        decreases shape.len() - i,
    {
        proof {
            let next = shape@.take(i as int + 1);
            assert(next.drop_last() =~= shape@.take(i as int));
            assert(next.last() == shape@[i as int]);
            lemma_volume_split(shape@, i as int + 1);
        }
        acc = acc * shape[i];
        i = i + 1;
    }
    proof {
        assert(shape@.take(shape.len() as int) =~= shape@);
    }
    acc
}

/// The strides of the batch axes of a shape that can be allocated.
pub fn batch_strides(shape: &Vec<usize>) -> (strides: Vec<usize>)
    requires
        shape.len() >= 2,
        allocatable(shape@),
    ensures
        strides@ == stride_prefix(shape@),
{
    let rank: usize = shape.len();
    let mut strides: Vec<usize> = Vec::new();
    let mut acc: usize = 1;
    let mut t: usize = rank;
    proof {
        assert(shape@.skip(rank as int) =~= Seq::<usize>::empty());
    }
    while t > 0
        invariant
            t <= rank,
            rank == shape.len(),
            rank >= 2,
            allocatable(shape@),
            acc == product(shape@.skip(t as int)),
            strides@.len() == (if t + 2 <= rank { rank - 2 - t } else { 0 }),
            forall|j: int| 0 <= j < strides@.len() ==> strides@[j] == stride(shape@, rank - 3 - j),
        decreases t,
    {
        t = t - 1;
        if t < rank - 2 {
            strides.push(acc);
        }
        proof {
            lemma_product_skip(shape@, t as int);
            lemma_volume_split(shape@, t as int);
            assert((shape@[t as int] as nat) * product(shape@.skip(t as int + 1)) == acc * shape@[t as int])
                by (nonlinear_arith)
                requires
                    acc == product(shape@.skip(t as int + 1)),
            ;
        }
        acc = acc * shape[t];
    }
    proof {
        assert(strides@ =~= stride_prefix(shape@));
    }
    strides
}

} // verus!
