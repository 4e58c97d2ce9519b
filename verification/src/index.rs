use vstd::prelude::*;
use vstd::arithmetic::div_mod::{lemma_div_pos_is_pos, lemma_fundamental_div_mod, lemma_mod_bound};
use ndarray::Dimension;
use crate::shape::{allocatable, lemma_product_positive, lemma_volume_split, product, volume};

verus! {

/// `index` names an element of a tensor of shape `shape`.
pub open spec fn in_bounds(shape: Seq<usize>, index: Seq<usize>) -> bool {
    &&& index.len() == shape.len()
    &&& forall|t: int| 0 <= t < shape.len() ==> index[t] < shape[t]
}

/// The multi-index of the `i`-th element of a shape in row-major order: the
/// last axis varies fastest.
pub open spec fn unravel(shape: Seq<usize>, i: nat) -> Seq<usize>
    decreases shape.len(),
{
    if shape.len() == 0 {
        Seq::empty()
    } else {
        let d = shape.last() as int;
        unravel(shape.drop_last(), (i as int / d) as nat).push((i as int % d) as usize)
    }
}

/// The row-major position of a multi-index within a shape.
pub open spec fn ravel(shape: Seq<usize>, index: Seq<usize>) -> nat
    decreases shape.len(),
{
    if shape.len() == 0 {
        0
    } else {
        ravel(shape.drop_last(), index.drop_last()) * (shape.last() as nat) + (index.last() as nat)
    }
}

/// The index that a broadcast operand is read at: on each axis the smaller of
/// the requested index and the operand's last index, so that an axis of extent
/// one is always read at zero.
pub open spec fn clamp_index(shape: Seq<usize>, index: Seq<usize>) -> Seq<usize> {
    Seq::new(
        index.len(),
        |t: int|
            if index[t] < shape[t] {
                index[t]
            } else {
                (shape[t] - 1) as usize
            },
    )
}

/// Unravelling has the rank of the shape.
pub proof fn lemma_unravel_len(shape: Seq<usize>, i: nat)
    ensures
        unravel(shape, i).len() == shape.len(),
    decreases shape.len(),
{
    if shape.len() > 0 {
        let d = shape.last() as int;
        lemma_unravel_len(shape.drop_last(), (i as int / d) as nat);
    }
}

/// The multi-index of an element of the shape lies within the shape.
pub proof fn lemma_unravel_in_bounds(shape: Seq<usize>, i: nat)
    requires
        i < product(shape),
    ensures
        in_bounds(shape, unravel(shape, i)),
    decreases shape.len(),
{
    lemma_unravel_len(shape, i);
    if shape.len() > 0 {
        let d = shape.last() as nat;
        let rest = shape.drop_last();
        lemma_product_positive(shape);
        assert(d > 0);
        lemma_fundamental_div_mod(i as int, d as int);
        lemma_mod_bound(i as int, d as int);
        lemma_div_pos_is_pos(i as int, d as int);
        assert(i / d < product(rest)) by (nonlinear_arith)
            requires
                i < product(rest) * d,
                d > 0,
                i == d * (i / d) + i % d,
                0 <= i % d < d,
        ;
        lemma_unravel_in_bounds(rest, i / d);
        let u = unravel(shape, i);
        assert forall|t: int| 0 <= t < shape.len() implies u[t] < shape[t] by {
            if t < shape.len() - 1 {
                assert(u[t] == unravel(rest, i / d)[t]);
                assert(rest[t] == shape[t]);
            }
        }
    }
}

/// The row-major position of an index within the shape is below the element
/// count.
pub proof fn lemma_ravel_bound(shape: Seq<usize>, index: Seq<usize>)
    requires
        in_bounds(shape, index),
    ensures
        ravel(shape, index) < product(shape),
    decreases shape.len(),
{
    if shape.len() > 0 {
        let rest = shape.drop_last();
        let d = shape.last() as nat;
        assert(in_bounds(rest, index.drop_last()));
        lemma_ravel_bound(rest, index.drop_last());
        let r = ravel(rest, index.drop_last());
        assert(r * d + index.last() < product(rest) * d) by (nonlinear_arith)
            requires
                r < product(rest),
                (index.last() as nat) < d,
        ;
    }
}

/// Unravelling a position and ravelling it again gives the position back.
pub proof fn lemma_ravel_unravel(shape: Seq<usize>, i: nat)
    requires
        i < product(shape),
    ensures
        ravel(shape, unravel(shape, i)) == i,
    decreases shape.len(),
{
    if shape.len() == 0 {
        assert(product(shape) == 1);
    } else {
        let d = shape.last() as nat;
        let rest = shape.drop_last();
        lemma_product_positive(shape);
        lemma_fundamental_div_mod(i as int, d as int);
        lemma_mod_bound(i as int, d as int);
        lemma_div_pos_is_pos(i as int, d as int);
        assert(i / d < product(rest)) by (nonlinear_arith)
            requires
                i < product(rest) * d,
                d > 0,
                i == d * (i / d) + i % d,
                0 <= i % d < d,
        ;
        lemma_ravel_unravel(rest, i / d);
        let u = unravel(shape, i);
        assert(u.drop_last() =~= unravel(rest, i / d));
        assert(u.last() == (i % d) as usize);
        assert((i / d) * d + i % d == i) by (nonlinear_arith)
            requires
                i == d * (i / d) + i % d,
        ;
    }
}

/// Clamping an index to a shape without empty axis gives an index of that
/// shape.
pub proof fn lemma_clamp_in_bounds(shape: Seq<usize>, index: Seq<usize>)
    requires
        index.len() == shape.len(),
        forall|t: int| 0 <= t < shape.len() ==> shape[t] != 0,
    ensures
        in_bounds(shape, clamp_index(shape, index)),
{
}

/// Clamping leaves an index of the shape as it is.
pub proof fn lemma_clamp_identity(shape: Seq<usize>, index: Seq<usize>)
    requires
        in_bounds(shape, index),
    ensures
        clamp_index(shape, index) == index,
{
    assert(clamp_index(shape, index) =~= index);
}

/// On a shape made of ones every index is read at position zero.
pub proof fn lemma_ravel_unit_shape(shape: Seq<usize>, index: Seq<usize>)
    requires
        index.len() == shape.len(),
        forall|t: int| 0 <= t < shape.len() ==> shape[t] == 1,
    ensures
        ravel(shape, clamp_index(shape, index)) == 0,
    decreases shape.len(),
{
    if shape.len() > 0 {
        let c = clamp_index(shape, index);
        assert(c.drop_last() =~= clamp_index(shape.drop_last(), index.drop_last()));
        lemma_ravel_unit_shape(shape.drop_last(), index.drop_last());
        assert(c.last() == 0);
        assert(shape.last() == 1);
        assert(ravel(shape, c) == ravel(shape.drop_last(), c.drop_last()) * (shape.last() as nat)
            + (c.last() as nat));
    }
}

/// Every multi-index of `shape` in row-major order, produced by
/// `ndarray::indices` over a dynamic dimension.
///
/// Trusted: the iterator starts at the all-zero index, advances the last axis
/// first and carries into the axes before it, so that it yields as many
/// indices as the shape has elements and the `i`-th of them is the
/// unravelling of `i`. The shape must be allocatable, for `ndarray` multiplies
/// its extents without a check.
#[verifier::external_body]
pub(crate) fn row_major_indices(shape: &Vec<usize>) -> (all: Vec<Vec<usize>>)
    requires
        allocatable(shape@),
    ensures
        all@.len() == product(shape@),
        forall|i: int| 0 <= i < all@.len() ==> (#[trigger] all@[i])@ == unravel(shape@, i as nat),
{
    ndarray::indices(ndarray::IxDyn(shape)).into_iter().map(|ix| ix.slice().to_vec()).collect()
}

/// The position, within the first `cell.len()` axes of `shape`, of the batch
/// cell that a broadcast operand of that shape is read at.
pub fn clamped_position(shape: &Vec<usize>, cell: &Vec<usize>) -> (pos: usize)
    requires
        cell.len() <= shape.len(),
        allocatable(shape@),
        forall|t: int| 0 <= t < cell.len() ==> shape[t] != 0,
    ensures
        pos == ravel(
            shape@.take(cell.len() as int),
            clamp_index(shape@.take(cell.len() as int), cell@),
        ),
        pos < product(shape@.take(cell.len() as int)),
{
    let ghost prefix = shape@.take(cell.len() as int);
    let ghost clamped = clamp_index(prefix, cell@);
    let mut pos: usize = 0;
    let mut t: usize = 0;
    proof {
        lemma_clamp_in_bounds(prefix, cell@);
        lemma_volume_split(shape@, cell.len() as int);
    }
    while t < cell.len()
        invariant
            t <= cell.len() <= shape.len(),
            prefix == shape@.take(cell.len() as int),
            clamped == clamp_index(prefix, cell@),
            in_bounds(prefix, clamped),
            forall|j: int| 0 <= j < cell.len() ==> shape[j] != 0,
            volume(prefix) <= isize::MAX,
            pos == ravel(prefix.take(t as int), clamped.take(t as int)),
        decreases cell.len() - t,
    {
        let dim: usize = shape[t];
        let d: usize = if cell[t] < dim { cell[t] } else { dim - 1 };
        proof {
            let s1 = prefix.take(t as int + 1);
            let c1 = clamped.take(t as int + 1);
            assert(s1.drop_last() =~= prefix.take(t as int));
            assert(c1.drop_last() =~= clamped.take(t as int));
            assert(s1.last() == dim);
            assert(c1.last() == d);
            assert(in_bounds(s1, c1));
            lemma_ravel_bound(s1, c1);
            lemma_volume_split(prefix, t as int + 1);
            assert(ravel(s1, c1) == pos * dim + d);
        }
        pos = pos * dim + d;
        t = t + 1;
    }
    proof {
        assert(prefix.take(cell.len() as int) =~= prefix);
        assert(clamped.take(cell.len() as int) =~= clamped);
        lemma_ravel_bound(prefix, clamped);
    }
    pos
}

} // verus!
