use vstd::prelude::*;
use vstd::view::View as _;

use crate::view::View;

verus! {

/// What one indexing step yields: an element, where the indexed axis was the
/// last one, or a narrower view, where axes remain below it.
#[derive(Debug, PartialEq, Copy, Clone)]
pub enum Entry<E, S> {
    Scalar(E),
    Slice(S),
}

impl<E: Copy, S> Entry<E, S> {
    /// The element of a `Scalar` entry.
    pub fn scalar(&self) -> (r: E)
        requires
            self is Scalar,
        ensures
            r == self->Scalar_0,
    {
        match self {
            Entry::Scalar(e) => *e,
            Entry::Slice(_) => unreached(),
        }
    }
}

impl<'a, E> Entry<E, View<'a, E>> {
    /// The flat elements of a `Slice` entry.
    pub fn slice(&self) -> (r: &'a [E])
        requires
            self is Slice,
        ensures
            r@ == self->Slice_0.buffer(),
    {
        match self {
            Entry::Slice(s) => s.data(),
            Entry::Scalar(_) => unreached(),
        }
    }
}

/// Indexing one axis at a time: `index` addresses a position along the first
/// remaining axis and yields an `Entry`. It is implemented on references, so
/// that what it yields may borrow from the indexed value.
pub trait Index: Sized {
    type Output;

    /// Whether `position` may be indexed.
    spec fn position_ok(self, position: usize) -> bool;

    /// Whether `r` is what indexing at `position` yields.
    spec fn indexes_to(self, position: usize, r: Self::Output) -> bool;

    fn index(self, position: usize) -> (r: Self::Output)
        requires
            self.position_ok(position),
        ensures
            self.indexes_to(position, r),
    ;
}

} // verus!
