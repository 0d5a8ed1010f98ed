use vstd::prelude::*;
use vstd::slice::slice_subrange;
use vstd::view::View as _;

use crate::index::{Entry, Index};
use crate::shape::{prod, product};

verus! {

/// The number of elements spanned by one step along the first axis of `shape`.
pub open spec fn stride(shape: Seq<usize>) -> nat {
    prod(shape.drop_first())
}

/// The contiguous block of `data` addressed by position `i` along the first axis.
pub open spec fn block<T>(data: Seq<T>, shape: Seq<usize>, i: int) -> Seq<T> {
    data.subrange(i * stride(shape), (i + 1) * stride(shape))
}

/// Positions, one per axis, each below its axis's extent.
pub open spec fn in_bounds(shape: Seq<usize>, idx: Seq<usize>) -> bool {
    &&& idx.len() == shape.len()
    &&& forall|j: int| 0 <= j < idx.len() ==> idx[j] < shape[j]
}

/// Row-major offset of the positions `idx`: `i0 * stride0 + i1 * stride1 + ...`.
pub open spec fn offset(shape: Seq<usize>, idx: Seq<usize>) -> int
    decreases idx.len(),
{
    if idx.len() == 0 || shape.len() == 0 {
        0
    } else {
        idx[0] * stride(shape) + offset(shape.drop_first(), idx.drop_first())
    }
}

/// The element reached by indexing `data` under `shape` one axis at a time
/// with the positions `idx`: each step keeps the block of its position (as
/// `entry_at` describes `Index::index`), and the last step reads the element.
pub open spec fn descend<T>(data: Seq<T>, shape: Seq<usize>, idx: Seq<usize>) -> T
    decreases shape.len(),
{
    if shape.len() <= 1 {
        data[idx[0] as int]
    } else {
        descend(block(data, shape, idx[0] as int), shape.drop_first(), idx.drop_first())
    }
}

proof fn lemma_block_fits(len: nat, d0: nat, s: nat, i: nat)
    requires
        len == d0 * s,
        i < d0,
    ensures
        (i + 1) * s <= len,
        i * s + s == (i + 1) * s,
{
    assert((i + 1) * s <= d0 * s) by (nonlinear_arith)
        requires
            i + 1 <= d0,
    ;
    assert(i * s + s == (i + 1) * s) by (nonlinear_arith);
}

/// Indexing axis by axis with in-bounds positions, then reading the element
/// reached, gives the element at the row-major offset of those positions.
pub proof fn lemma_index_round_trip<T>(data: Seq<T>, shape: Seq<usize>, idx: Seq<usize>)
    requires
        shape.len() >= 1,
        data.len() == prod(shape),
        in_bounds(shape, idx),
    ensures
        0 <= offset(shape, idx) < data.len(),
        descend(data, shape, idx) == data[offset(shape, idx)],
    decreases shape.len(),
{
    let tail = shape.drop_first();
    let s = stride(shape);
    let i0 = idx[0] as nat;
    assert(prod(shape) == (shape[0] as nat) * prod(tail));
    lemma_block_fits(data.len(), shape[0] as nat, s, i0);
    assert(idx.drop_first().len() == tail.len());
    if shape.len() == 1 {
        assert(tail.len() == 0);
        assert(idx.drop_first().len() == 0);
        assert(s == 1);
        assert(i0 * 1 == i0);
        assert(offset(tail, idx.drop_first()) == 0);
    } else {
        let b = block(data, shape, i0 as int);
        assert(in_bounds(tail, idx.drop_first())) by {
            assert forall|j: int| 0 <= j < idx.drop_first().len() implies idx.drop_first()[j]
                < tail[j] by {
                assert(idx[j + 1] < shape[j + 1]);
            }
        }
        lemma_index_round_trip(b, tail, idx.drop_first());
        let o = offset(tail, idx.drop_first());
        assert(b[o] == data[i0 * s + o]);
        assert(i0 * s + o < (i0 + 1) * s);
    }
}

/// A borrowed, read-only window on a contiguous run of a tensor's buffer,
/// together with the extents of the axes that remain.
pub struct View<'a, T> {
    data: &'a [T],
    shape: &'a [usize],
}

impl<'a, T> View<'a, T> {
    /// The elements the view spans, in row-major order.
    pub closed spec fn buffer(&self) -> Seq<T> {
        self.data@
    }

    /// The extents of the remaining axes.
    pub closed spec fn extents(&self) -> Seq<usize> {
        self.shape@
    }

    pub open spec fn wf(&self) -> bool {
        &&& self.extents().len() >= 1
        &&& self.buffer().len() == prod(self.extents())
    }

    /// A view on `data` under the extents `shape`, whose product is its length.
    pub fn new(data: &'a [T], shape: &'a [usize]) -> (r: Self)
        requires
            shape@.len() >= 1,
            data@.len() == prod(shape@),
        ensures
            r.buffer() == data@,
            r.extents() == shape@,
            r.wf(),
    {
        View { data, shape }
    }

    /// The elements the view spans.
    pub fn data(&self) -> (r: &'a [T])
        ensures
            r@ == self.buffer(),
    {
        self.data
    }
}

/// What indexing `data` under `shape` at `position` yields: the element
/// where one axis remains, else the view on the position's block.
pub open spec fn entry_at<'a, T>(
    data: Seq<T>,
    shape: Seq<usize>,
    position: int,
    r: Entry<T, View<'a, T>>,
) -> bool {
    &&& shape.len() == 1 ==> r == Entry::<T, View<'a, T>>::Scalar(data[position])
    &&& shape.len() > 1 ==> {
        &&& r is Slice
        &&& r->Slice_0.wf()
        &&& r->Slice_0.buffer() == block(data, shape, position)
        &&& r->Slice_0.extents() == shape.drop_first()
    }
}

impl<'b, 'a, T: Copy> Index for &'b View<'a, T> {
    type Output = Entry<T, View<'a, T>>;

    open spec fn position_ok(self, position: usize) -> bool {
        self.wf() && position < self.extents()[0]
    }

    open spec fn indexes_to(self, position: usize, r: Entry<T, View<'a, T>>) -> bool {
        entry_at(self.buffer(), self.extents(), position as int, r)
    }

    /// Indexes the first remaining axis at `position`: the element itself where
    /// it is the last axis, else the view on the block below that position.
    fn index(self, position: usize) -> (r: Entry<T, View<'a, T>>) {
        assert(prod(self.shape@) == (self.shape@[0] as nat) * prod(self.shape@.drop_first()));
        if self.shape.len() == 1 {
            assert(prod(self.shape@.drop_first()) == 1);
            assert((self.shape@[0] as nat) * 1 == self.shape@[0] as nat);
            Entry::Scalar(self.data[position])
        } else {
            let tail = slice_subrange(self.shape, 1, self.shape.len());
            assert(tail@ =~= self.shape@.drop_first());
            proof {
                lemma_block_fits(
                    self.data@.len() as nat,
                    self.shape@[0] as nat,
                    prod(tail@),
                    position as nat,
                );
            }
            let stride = product(tail);
            let start = position * stride;
            let end = start + stride;
            Entry::Slice(View { data: slice_subrange(self.data, start, end), shape: tail })
        }
    }
}

} // verus!
