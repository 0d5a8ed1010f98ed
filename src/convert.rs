use vstd::prelude::*;
use vstd::slice::slice_to_vec;
use vstd::view::View as _;

use crate::shape::{prod, valid_dims};
use crate::tensor::Tensor;

verus! {

/// Turns a flat sequence of elements into a tensor of a given shape.
pub trait Convert<T>: Sized {
    /// The elements, in the order the tensor will hold them.
    spec fn elements(&self) -> Seq<T>;

    /// The number of elements.
    fn length(&self) -> (r: usize)
        ensures
            r == self.elements().len(),
    ;

    /// A tensor of extents `shape` holding the elements in row-major order.
    fn into_tensor(self, shape: Vec<usize>) -> (r: Tensor<T>)
        requires
            valid_dims(shape@),
            self.elements().len() == prod(shape@),
        ensures
            r.wf(),
            r.buffer() == self.elements(),
            r.extents() == shape@,
    ;

    /// A rank-1 tensor holding the elements.
    fn into_vector(self) -> (r: Tensor<T>)
        requires
            self.elements().len() >= 1,
        ensures
            r.wf(),
            r.buffer() == self.elements(),
            r.extents() == seq![self.elements().len() as usize],
    {
        let length = self.length();
        let shape = vec![length];
        assert(shape@ =~= seq![length]);
        assert(shape@[0] != 0);
        assert(prod(shape@) == length) by {
            assert(shape@.drop_first() =~= Seq::<usize>::empty());
            assert(prod(shape@.drop_first()) == 1);
            assert(prod(shape@) == (length as nat) * prod(shape@.drop_first()));
        }
        self.into_tensor(shape)
    }

    /// A `rows` by `cols` tensor holding the elements in row-major order.
    fn into_matrix(self, rows: usize, cols: usize) -> (r: Tensor<T>)
        requires
            rows != 0 || cols != 0,
            self.elements().len() == rows * cols,
        ensures
            r.wf(),
            r.buffer() == self.elements(),
            r.extents() == seq![rows, cols],
    {
        let count = self.length();
        let shape = vec![rows, cols];
        assert(shape@ =~= seq![rows, cols]);
        assert(prod(shape@) == rows * cols) by {
            assert(shape@.drop_first() =~= seq![cols]);
            assert(seq![cols].drop_first() =~= Seq::<usize>::empty());
            assert(prod(seq![cols].drop_first()) == 1);
            assert(prod(seq![cols]) == (cols as nat) * 1);
            assert(prod(shape@) == (rows as nat) * prod(seq![cols]));
        }
        assert(prod(shape@) == count);
        if rows != 0 {
            assert(shape@[0] != 0);
        } else {
            assert(shape@[1] != 0);
        }
        self.into_tensor(shape)
    }
}

impl<T> Convert<T> for Vec<T> {
    open spec fn elements(&self) -> Seq<T> {
        self@
    }

    fn length(&self) -> (r: usize) {
        self.len()
    }

    fn into_tensor(self, shape: Vec<usize>) -> (r: Tensor<T>) {
        Tensor::new(self, shape)
    }
}

impl<'a, T: Copy> Convert<T> for &'a [T] {
    open spec fn elements(&self) -> Seq<T> {
        self@
    }

    fn length(&self) -> (r: usize) {
        self.len()
    }

    fn into_tensor(self, shape: Vec<usize>) -> (r: Tensor<T>) {
        Tensor::new(slice_to_vec(self), shape)
    }
}

} // verus!
