use vstd::prelude::*;
use vstd::std_specs::ops::{AddSpec, DivSpec, MulSpec, NegSpec, SubSpec};
use vstd::view::View as _;

use super::Tensor;

verus! {

/// Refusal of an elementwise operation on two tensors of different shapes.
#[derive(Debug, Clone, Copy, PartialEq, Eq, Structural)]
pub struct ShapeMismatch;

/// Elementwise `a[i] + b[i]`, as the element type defines `+`.
pub open spec fn elementwise_add<T: std::ops::Add<Output = T> + AddSpec>(a: Seq<T>, b: Seq<T>) -> Seq<T> {
    Seq::new(a.len(), |i: int| a[i].add_spec(b[i]))
}

/// Elementwise `a[i] + v`, as the element type defines `+`.
pub open spec fn elementwise_add_scalar<T: std::ops::Add<Output = T> + AddSpec>(a: Seq<T>, v: T) -> Seq<T> {
    Seq::new(a.len(), |i: int| a[i].add_spec(v))
}

impl<T: Copy + std::ops::Add<Output = T> + AddSpec> Tensor<T> {
    /// Adds `other` to `self` element by element, in place. Tensors of
    /// different shapes are refused and left as they are.
    pub fn add_assign(&mut self, other: &Tensor<T>) -> (r: Result<(), ShapeMismatch>)
        requires
            old(self).wf(),
            other.wf(),
            old(self).extents() == other.extents() ==> forall|i: int|
                0 <= i < old(self).buffer().len() ==> (#[trigger] old(self).buffer()[i]).add_req(
                    other.buffer()[i],
                ),
        ensures
            final(self).wf(),
            final(self).extents() == old(self).extents(),
            old(self).extents() == other.extents() ==> {
                &&& r is Ok
                &&& final(self).buffer().len() == old(self).buffer().len()
                &&& T::obeys_add_spec() ==> final(self).buffer() == elementwise_add(
                    old(self).buffer(),
                    other.buffer(),
                )
            },
            old(self).extents() != other.extents() ==> r is Err && *final(self) == *old(self),
    {
        if self.shape != other.shape {
            return Err(ShapeMismatch);
        }
        let n = self.data.len();
        let mut i: usize = 0;
        while i < n
            invariant
                0 <= i <= n,
                n == old(self).buffer().len(),
                n == other.buffer().len(),
                self.data@.len() == n,
                self.shape@ == old(self).extents(),
                old(self).extents() == other.extents(),
                old(self).wf(),
                forall|j: int|
                    0 <= j < n ==> (#[trigger] old(self).buffer()[j]).add_req(other.buffer()[j]),
                forall|j: int| i <= j < n ==> self.data@[j] == old(self).buffer()[j],
                T::obeys_add_spec() ==> forall|j: int|
                    0 <= j < i ==> self.data@[j] == (#[trigger] old(self).buffer()[j]).add_spec(
                        other.buffer()[j],
                    ),
            decreases n - i,
        {
            let a = self.data[i];
            let b = other.data[i];
            assert(old(self).buffer()[i as int].add_req(other.buffer()[i as int]));
            self.data.set(i, a + b);
            i += 1;
        }
        assert(T::obeys_add_spec() ==> self.data@ =~= elementwise_add(old(self).buffer(), other.buffer()));
        Ok(())
    }

    /// Adds `other` to `self` element by element. Tensors of different shapes
    /// are refused.
    pub fn add(self, other: &Tensor<T>) -> (r: Result<Tensor<T>, ShapeMismatch>)
        requires
            self.wf(),
            other.wf(),
            self.extents() == other.extents() ==> forall|i: int|
                0 <= i < self.buffer().len() ==> (#[trigger] self.buffer()[i]).add_req(
                    other.buffer()[i],
                ),
        ensures
            self.extents() == other.extents() ==> {
                &&& r is Ok
                &&& r->Ok_0.wf()
                &&& r->Ok_0.extents() == self.extents()
                &&& r->Ok_0.buffer().len() == self.buffer().len()
                &&& T::obeys_add_spec() ==> r->Ok_0.buffer() == elementwise_add(
                    self.buffer(),
                    other.buffer(),
                )
            },
            self.extents() != other.extents() ==> r is Err,
    {
        let mut t = self;
        match t.add_assign(other) {
            Ok(()) => Ok(t),
            Err(e) => Err(e),
        }
    }

    /// Adds `value` to every element, in place.
    pub fn add_assign_scalar(&mut self, value: T)
        requires
            old(self).wf(),
            forall|i: int|
                0 <= i < old(self).buffer().len() ==> (#[trigger] old(self).buffer()[i]).add_req(
                    value,
                ),
        ensures
            final(self).wf(),
            final(self).extents() == old(self).extents(),
            final(self).buffer().len() == old(self).buffer().len(),
            T::obeys_add_spec() ==> final(self).buffer() == elementwise_add_scalar(
                old(self).buffer(),
                value,
            ),
    {
        let n = self.data.len();
        let mut i: usize = 0;
        while i < n
            invariant
                0 <= i <= n,
                n == old(self).buffer().len(),
                self.data@.len() == n,
                self.shape@ == old(self).extents(),
                old(self).wf(),
                forall|j: int| 0 <= j < n ==> (#[trigger] old(self).buffer()[j]).add_req(value),
                forall|j: int| i <= j < n ==> self.data@[j] == old(self).buffer()[j],
                T::obeys_add_spec() ==> forall|j: int|
                    0 <= j < i ==> self.data@[j] == (#[trigger] old(self).buffer()[j]).add_spec(
                        value,
                    ),
            decreases n - i,
        {
            let a = self.data[i];
            assert(old(self).buffer()[i as int].add_req(value));
            self.data.set(i, a + value);
            i += 1;
        }
        assert(T::obeys_add_spec() ==> self.data@ =~= elementwise_add_scalar(old(self).buffer(), value));
    }

    /// Adds `value` to every element.
    pub fn add_scalar(self, value: T) -> (r: Tensor<T>)
        requires
            self.wf(),
            forall|i: int|
                0 <= i < self.buffer().len() ==> (#[trigger] self.buffer()[i]).add_req(value),
        ensures
            r.wf(),
            r.extents() == self.extents(),
            r.buffer().len() == self.buffer().len(),
            T::obeys_add_spec() ==> r.buffer() == elementwise_add_scalar(self.buffer(), value),
    {
        let mut t = self;
        t.add_assign_scalar(value);
        t
    }
}

/// Elementwise `a[i] - b[i]`, as the element type defines `-`.
pub open spec fn elementwise_sub<T: std::ops::Sub<Output = T> + SubSpec>(a: Seq<T>, b: Seq<T>) -> Seq<T> {
    Seq::new(a.len(), |i: int| a[i].sub_spec(b[i]))
}

/// Elementwise `a[i] - v`, as the element type defines `-`.
pub open spec fn elementwise_sub_scalar<T: std::ops::Sub<Output = T> + SubSpec>(a: Seq<T>, v: T) -> Seq<T> {
    Seq::new(a.len(), |i: int| a[i].sub_spec(v))
}

impl<T: Copy + std::ops::Sub<Output = T> + SubSpec> Tensor<T> {
    /// Subtracts `other` from `self` element by element, in place. Tensors of
    /// different shapes are refused and left as they are.
    pub fn sub_assign(&mut self, other: &Tensor<T>) -> (r: Result<(), ShapeMismatch>)
        requires
            old(self).wf(),
            other.wf(),
            old(self).extents() == other.extents() ==> forall|i: int|
                0 <= i < old(self).buffer().len() ==> (#[trigger] old(self).buffer()[i]).sub_req(
                    other.buffer()[i],
                ),
        ensures
            final(self).wf(),
            final(self).extents() == old(self).extents(),
            old(self).extents() == other.extents() ==> {
                &&& r is Ok
                &&& final(self).buffer().len() == old(self).buffer().len()
                &&& T::obeys_sub_spec() ==> final(self).buffer() == elementwise_sub(
                    old(self).buffer(),
                    other.buffer(),
                )
            },
            old(self).extents() != other.extents() ==> r is Err && *final(self) == *old(self),
    {
        if self.shape != other.shape {
            return Err(ShapeMismatch);
        }
        let n = self.data.len();
        let mut i: usize = 0;
        while i < n
            invariant
                0 <= i <= n,
                n == old(self).buffer().len(),
                n == other.buffer().len(),
                self.data@.len() == n,
                self.shape@ == old(self).extents(),
                old(self).extents() == other.extents(),
                old(self).wf(),
                forall|j: int|
                    0 <= j < n ==> (#[trigger] old(self).buffer()[j]).sub_req(other.buffer()[j]),
                forall|j: int| i <= j < n ==> self.data@[j] == old(self).buffer()[j],
                T::obeys_sub_spec() ==> forall|j: int|
                    0 <= j < i ==> self.data@[j] == (#[trigger] old(self).buffer()[j]).sub_spec(
                        other.buffer()[j],
                    ),
            decreases n - i,
        {
            let a = self.data[i];
            let b = other.data[i];
            assert(old(self).buffer()[i as int].sub_req(other.buffer()[i as int]));
            self.data.set(i, a - b);
            i += 1;
        }
        assert(T::obeys_sub_spec() ==> self.data@ =~= elementwise_sub(old(self).buffer(), other.buffer()));
        Ok(())
    }

    /// Subtracts `other` from `self` element by element. Tensors of different shapes
    /// are refused.
    pub fn sub(self, other: &Tensor<T>) -> (r: Result<Tensor<T>, ShapeMismatch>)
        requires
            self.wf(),
            other.wf(),
            self.extents() == other.extents() ==> forall|i: int|
                0 <= i < self.buffer().len() ==> (#[trigger] self.buffer()[i]).sub_req(
                    other.buffer()[i],
                ),
        ensures
            self.extents() == other.extents() ==> {
                &&& r is Ok
                &&& r->Ok_0.wf()
                &&& r->Ok_0.extents() == self.extents()
                &&& r->Ok_0.buffer().len() == self.buffer().len()
                &&& T::obeys_sub_spec() ==> r->Ok_0.buffer() == elementwise_sub(
                    self.buffer(),
                    other.buffer(),
                )
            },
            self.extents() != other.extents() ==> r is Err,
    {
        let mut t = self;
        match t.sub_assign(other) {
            Ok(()) => Ok(t),
            Err(e) => Err(e),
        }
    }

    /// Subtracts `value` from every element, in place.
    pub fn sub_assign_scalar(&mut self, value: T)
        requires
            old(self).wf(),
            forall|i: int|
                0 <= i < old(self).buffer().len() ==> (#[trigger] old(self).buffer()[i]).sub_req(
                    value,
                ),
        ensures
            final(self).wf(),
            final(self).extents() == old(self).extents(),
            final(self).buffer().len() == old(self).buffer().len(),
            T::obeys_sub_spec() ==> final(self).buffer() == elementwise_sub_scalar(
                old(self).buffer(),
                value,
            ),
    {
        let n = self.data.len();
        let mut i: usize = 0;
        while i < n
            invariant
                0 <= i <= n,
                n == old(self).buffer().len(),
                self.data@.len() == n,
                self.shape@ == old(self).extents(),
                old(self).wf(),
                forall|j: int| 0 <= j < n ==> (#[trigger] old(self).buffer()[j]).sub_req(value),
                forall|j: int| i <= j < n ==> self.data@[j] == old(self).buffer()[j],
                T::obeys_sub_spec() ==> forall|j: int|
                    0 <= j < i ==> self.data@[j] == (#[trigger] old(self).buffer()[j]).sub_spec(
                        value,
                    ),
            decreases n - i,
        {
            let a = self.data[i];
            assert(old(self).buffer()[i as int].sub_req(value));
            self.data.set(i, a - value);
            i += 1;
        }
        assert(T::obeys_sub_spec() ==> self.data@ =~= elementwise_sub_scalar(old(self).buffer(), value));
    }

    /// Subtracts `value` from every element.
    pub fn sub_scalar(self, value: T) -> (r: Tensor<T>)
        requires
            self.wf(),
            forall|i: int|
                0 <= i < self.buffer().len() ==> (#[trigger] self.buffer()[i]).sub_req(value),
        ensures
            r.wf(),
            r.extents() == self.extents(),
            r.buffer().len() == self.buffer().len(),
            T::obeys_sub_spec() ==> r.buffer() == elementwise_sub_scalar(self.buffer(), value),
    {
        let mut t = self;
        t.sub_assign_scalar(value);
        t
    }
}

/// Elementwise `a[i] * b[i]`, as the element type defines `*`.
pub open spec fn elementwise_mul<T: std::ops::Mul<Output = T> + MulSpec>(a: Seq<T>, b: Seq<T>) -> Seq<T> {
    Seq::new(a.len(), |i: int| a[i].mul_spec(b[i]))
}

/// Elementwise `a[i] * v`, as the element type defines `*`.
pub open spec fn elementwise_mul_scalar<T: std::ops::Mul<Output = T> + MulSpec>(a: Seq<T>, v: T) -> Seq<T> {
    Seq::new(a.len(), |i: int| a[i].mul_spec(v))
}

impl<T: Copy + std::ops::Mul<Output = T> + MulSpec> Tensor<T> {
    /// Multiplies `self` by `other` element by element, in place. Tensors of
    /// different shapes are refused and left as they are.
    pub fn mul_assign(&mut self, other: &Tensor<T>) -> (r: Result<(), ShapeMismatch>)
        requires
            old(self).wf(),
            other.wf(),
            old(self).extents() == other.extents() ==> forall|i: int|
                0 <= i < old(self).buffer().len() ==> (#[trigger] old(self).buffer()[i]).mul_req(
                    other.buffer()[i],
                ),
        ensures
            final(self).wf(),
            final(self).extents() == old(self).extents(),
            old(self).extents() == other.extents() ==> {
                &&& r is Ok
                &&& final(self).buffer().len() == old(self).buffer().len()
                &&& T::obeys_mul_spec() ==> final(self).buffer() == elementwise_mul(
                    old(self).buffer(),
                    other.buffer(),
                )
            },
            old(self).extents() != other.extents() ==> r is Err && *final(self) == *old(self),
    {
        if self.shape != other.shape {
            return Err(ShapeMismatch);
        }
        let n = self.data.len();
        let mut i: usize = 0;
        while i < n
            invariant
                0 <= i <= n,
                n == old(self).buffer().len(),
                n == other.buffer().len(),
                self.data@.len() == n,
                self.shape@ == old(self).extents(),
                old(self).extents() == other.extents(),
                old(self).wf(),
                forall|j: int|
                    0 <= j < n ==> (#[trigger] old(self).buffer()[j]).mul_req(other.buffer()[j]),
                forall|j: int| i <= j < n ==> self.data@[j] == old(self).buffer()[j],
                T::obeys_mul_spec() ==> forall|j: int|
                    0 <= j < i ==> self.data@[j] == (#[trigger] old(self).buffer()[j]).mul_spec(
                        other.buffer()[j],
                    ),
            decreases n - i,
        {
            let a = self.data[i];
            let b = other.data[i];
            assert(old(self).buffer()[i as int].mul_req(other.buffer()[i as int]));
            self.data.set(i, a * b);
            i += 1;
        }
        assert(T::obeys_mul_spec() ==> self.data@ =~= elementwise_mul(old(self).buffer(), other.buffer()));
        Ok(())
    }

    /// Multiplies `self` by `other` element by element. Tensors of different shapes
    /// are refused.
    pub fn mul(self, other: &Tensor<T>) -> (r: Result<Tensor<T>, ShapeMismatch>)
        requires
            self.wf(),
            other.wf(),
            self.extents() == other.extents() ==> forall|i: int|
                0 <= i < self.buffer().len() ==> (#[trigger] self.buffer()[i]).mul_req(
                    other.buffer()[i],
                ),
        ensures
            self.extents() == other.extents() ==> {
                &&& r is Ok
                &&& r->Ok_0.wf()
                &&& r->Ok_0.extents() == self.extents()
                &&& r->Ok_0.buffer().len() == self.buffer().len()
                &&& T::obeys_mul_spec() ==> r->Ok_0.buffer() == elementwise_mul(
                    self.buffer(),
                    other.buffer(),
                )
            },
            self.extents() != other.extents() ==> r is Err,
    {
        let mut t = self;
        match t.mul_assign(other) {
            Ok(()) => Ok(t),
            Err(e) => Err(e),
        }
    }

    /// Multiplies every element by `value`, in place.
    pub fn mul_assign_scalar(&mut self, value: T)
        requires
            old(self).wf(),
            forall|i: int|
                0 <= i < old(self).buffer().len() ==> (#[trigger] old(self).buffer()[i]).mul_req(
                    value,
                ),
        ensures
            final(self).wf(),
            final(self).extents() == old(self).extents(),
            final(self).buffer().len() == old(self).buffer().len(),
            T::obeys_mul_spec() ==> final(self).buffer() == elementwise_mul_scalar(
                old(self).buffer(),
                value,
            ),
    {
        let n = self.data.len();
        let mut i: usize = 0;
        while i < n
            invariant
                0 <= i <= n,
                n == old(self).buffer().len(),
                self.data@.len() == n,
                self.shape@ == old(self).extents(),
                old(self).wf(),
                forall|j: int| 0 <= j < n ==> (#[trigger] old(self).buffer()[j]).mul_req(value),
                forall|j: int| i <= j < n ==> self.data@[j] == old(self).buffer()[j],
                T::obeys_mul_spec() ==> forall|j: int|
                    0 <= j < i ==> self.data@[j] == (#[trigger] old(self).buffer()[j]).mul_spec(
                        value,
                    ),
            decreases n - i,
        {
            let a = self.data[i];
            assert(old(self).buffer()[i as int].mul_req(value));
            self.data.set(i, a * value);
            i += 1;
        }
        assert(T::obeys_mul_spec() ==> self.data@ =~= elementwise_mul_scalar(old(self).buffer(), value));
    }

    /// Multiplies every element by `value`.
    pub fn mul_scalar(self, value: T) -> (r: Tensor<T>)
        requires
            self.wf(),
            forall|i: int|
                0 <= i < self.buffer().len() ==> (#[trigger] self.buffer()[i]).mul_req(value),
        ensures
            r.wf(),
            r.extents() == self.extents(),
            r.buffer().len() == self.buffer().len(),
            T::obeys_mul_spec() ==> r.buffer() == elementwise_mul_scalar(self.buffer(), value),
    {
        let mut t = self;
        t.mul_assign_scalar(value);
        t
    }
}

/// Elementwise `a[i] / b[i]`, as the element type defines `/`.
pub open spec fn elementwise_div<T: std::ops::Div<Output = T> + DivSpec>(a: Seq<T>, b: Seq<T>) -> Seq<T> {
    Seq::new(a.len(), |i: int| a[i].div_spec(b[i]))
}

/// Elementwise `a[i] / v`, as the element type defines `/`.
pub open spec fn elementwise_div_scalar<T: std::ops::Div<Output = T> + DivSpec>(a: Seq<T>, v: T) -> Seq<T> {
    Seq::new(a.len(), |i: int| a[i].div_spec(v))
}

impl<T: Copy + std::ops::Div<Output = T> + DivSpec> Tensor<T> {
    /// Divides `self` by `other` element by element, in place. Tensors of
    /// different shapes are refused and left as they are.
    pub fn div_assign(&mut self, other: &Tensor<T>) -> (r: Result<(), ShapeMismatch>)
        requires
            old(self).wf(),
            other.wf(),
            old(self).extents() == other.extents() ==> forall|i: int|
                0 <= i < old(self).buffer().len() ==> (#[trigger] old(self).buffer()[i]).div_req(
                    other.buffer()[i],
                ),
        ensures
            final(self).wf(),
            final(self).extents() == old(self).extents(),
            old(self).extents() == other.extents() ==> {
                &&& r is Ok
                &&& final(self).buffer().len() == old(self).buffer().len()
                &&& T::obeys_div_spec() ==> final(self).buffer() == elementwise_div(
                    old(self).buffer(),
                    other.buffer(),
                )
            },
            old(self).extents() != other.extents() ==> r is Err && *final(self) == *old(self),
    {
        if self.shape != other.shape {
            return Err(ShapeMismatch);
        }
        let n = self.data.len();
        let mut i: usize = 0;
        while i < n
            invariant
                0 <= i <= n,
                n == old(self).buffer().len(),
                n == other.buffer().len(),
                self.data@.len() == n,
                self.shape@ == old(self).extents(),
                old(self).extents() == other.extents(),
                old(self).wf(),
                forall|j: int|
                    0 <= j < n ==> (#[trigger] old(self).buffer()[j]).div_req(other.buffer()[j]),
                forall|j: int| i <= j < n ==> self.data@[j] == old(self).buffer()[j],
                T::obeys_div_spec() ==> forall|j: int|
                    0 <= j < i ==> self.data@[j] == (#[trigger] old(self).buffer()[j]).div_spec(
                        other.buffer()[j],
                    ),
            decreases n - i,
        {
            let a = self.data[i];
            let b = other.data[i];
            assert(old(self).buffer()[i as int].div_req(other.buffer()[i as int]));
            self.data.set(i, a / b);
            i += 1;
        }
        assert(T::obeys_div_spec() ==> self.data@ =~= elementwise_div(old(self).buffer(), other.buffer()));
        Ok(())
    }

    /// Divides `self` by `other` element by element. Tensors of different shapes
    /// are refused.
    pub fn div(self, other: &Tensor<T>) -> (r: Result<Tensor<T>, ShapeMismatch>)
        requires
            self.wf(),
            other.wf(),
            self.extents() == other.extents() ==> forall|i: int|
                0 <= i < self.buffer().len() ==> (#[trigger] self.buffer()[i]).div_req(
                    other.buffer()[i],
                ),
        ensures
            self.extents() == other.extents() ==> {
                &&& r is Ok
                &&& r->Ok_0.wf()
                &&& r->Ok_0.extents() == self.extents()
                &&& r->Ok_0.buffer().len() == self.buffer().len()
                &&& T::obeys_div_spec() ==> r->Ok_0.buffer() == elementwise_div(
                    self.buffer(),
                    other.buffer(),
                )
            },
            self.extents() != other.extents() ==> r is Err,
    {
        let mut t = self;
        match t.div_assign(other) {
            Ok(()) => Ok(t),
            Err(e) => Err(e),
        }
    }

    /// Divides every element by `value`, in place.
    pub fn div_assign_scalar(&mut self, value: T)
        requires
            old(self).wf(),
            forall|i: int|
                0 <= i < old(self).buffer().len() ==> (#[trigger] old(self).buffer()[i]).div_req(
                    value,
                ),
        ensures
            final(self).wf(),
            final(self).extents() == old(self).extents(),
            final(self).buffer().len() == old(self).buffer().len(),
            T::obeys_div_spec() ==> final(self).buffer() == elementwise_div_scalar(
                old(self).buffer(),
                value,
            ),
    {
        let n = self.data.len();
        let mut i: usize = 0;
        while i < n
            invariant
                0 <= i <= n,
                n == old(self).buffer().len(),
                self.data@.len() == n,
                self.shape@ == old(self).extents(),
                old(self).wf(),
                forall|j: int| 0 <= j < n ==> (#[trigger] old(self).buffer()[j]).div_req(value),
                forall|j: int| i <= j < n ==> self.data@[j] == old(self).buffer()[j],
                T::obeys_div_spec() ==> forall|j: int|
                    0 <= j < i ==> self.data@[j] == (#[trigger] old(self).buffer()[j]).div_spec(
                        value,
                    ),
            decreases n - i,
        {
            let a = self.data[i];
            assert(old(self).buffer()[i as int].div_req(value));
            self.data.set(i, a / value);
            i += 1;
        }
        assert(T::obeys_div_spec() ==> self.data@ =~= elementwise_div_scalar(old(self).buffer(), value));
    }

    /// Divides every element by `value`.
    pub fn div_scalar(self, value: T) -> (r: Tensor<T>)
        requires
            self.wf(),
            forall|i: int|
                0 <= i < self.buffer().len() ==> (#[trigger] self.buffer()[i]).div_req(value),
        ensures
            r.wf(),
            r.extents() == self.extents(),
            r.buffer().len() == self.buffer().len(),
            T::obeys_div_spec() ==> r.buffer() == elementwise_div_scalar(self.buffer(), value),
    {
        let mut t = self;
        t.div_assign_scalar(value);
        t
    }
}

/// Elementwise `-a[i]`, as the element type defines negation.
pub open spec fn elementwise_neg<T: std::ops::Neg<Output = T> + NegSpec>(a: Seq<T>) -> Seq<T> {
    Seq::new(a.len(), |i: int| a[i].neg_spec())
}

impl<T: Copy + std::ops::Neg<Output = T> + NegSpec> Tensor<T> {
    /// Negates every element.
    pub fn neg(self) -> (r: Tensor<T>)
        requires
            self.wf(),
            forall|i: int| 0 <= i < self.buffer().len() ==> (#[trigger] self.buffer()[i]).neg_req(),
        ensures
            r.wf(),
            r.extents() == self.extents(),
            r.buffer().len() == self.buffer().len(),
            T::obeys_neg_spec() ==> r.buffer() == elementwise_neg(self.buffer()),
    {
        let mut t = self;
        let n = t.data.len();
        let mut i: usize = 0;
        while i < n
            invariant
                0 <= i <= n,
                n == self.buffer().len(),
                t.data@.len() == n,
                t.shape@ == self.extents(),
                self.wf(),
                forall|j: int| 0 <= j < n ==> (#[trigger] self.buffer()[j]).neg_req(),
                forall|j: int| i <= j < n ==> t.data@[j] == self.buffer()[j],
                T::obeys_neg_spec() ==> forall|j: int|
                    0 <= j < i ==> t.data@[j] == (#[trigger] self.buffer()[j]).neg_spec(),
            decreases n - i,
        {
            let a = t.data[i];
            assert(self.buffer()[i as int].neg_req());
            t.data.set(i, a.neg());
            i += 1;
        }
        assert(T::obeys_neg_spec() ==> t.data@ =~= elementwise_neg(self.buffer()));
        t
    }
}

} // verus!
