use vstd::prelude::*;
use vstd::std_specs::cmp::PartialEqSpec;
use vstd::std_specs::convert::FromSpec;
use vstd::view::View as _;

use crate::convert::Convert;
use crate::element::Identities;
use crate::index::{Entry, Index};
use crate::reshape::{reshape_result, resolve_shape, ReshapeError};
use crate::shape::{prod, valid_dims, Shape};
use crate::view::{entry_at, View};

mod ops;

pub use ops::{
    elementwise_add, elementwise_add_scalar, elementwise_div, elementwise_div_scalar, elementwise_mul,
    elementwise_mul_scalar, elementwise_neg, elementwise_sub, elementwise_sub_scalar, ShapeMismatch,
};

verus! {

/// A vector of `n` copies of `value`.
fn filled<T: Copy>(value: T, n: usize) -> (r: Vec<T>)
    ensures
        r@ == Seq::new(n as nat, |_i: int| value),
{
    let mut v: Vec<T> = Vec::with_capacity(n);
    let mut i: usize = 0;
    while i < n
        invariant
            0 <= i <= n,
            v@ == Seq::new(i as nat, |_i: int| value),
        decreases n - i,
    {
        v.push(value);
        i += 1;
        assert(v@ =~= Seq::new(i as nat, |_i: int| value));
    }
    v
}

/// A multi-dimensional array: a flat row-major buffer and the shape that
/// gives it axes. The buffer always holds exactly as many elements as the
/// shape counts.
#[derive(Debug)]
pub struct Tensor<T> {
    data: Vec<T>,
    shape: Shape,
}

impl<T> Tensor<T> {
    /// The elements, in row-major order.
    pub closed spec fn buffer(&self) -> Seq<T> {
        self.data@
    }

    /// The extents, one per axis.
    pub closed spec fn extents(&self) -> Seq<usize> {
        self.shape@
    }

    pub open spec fn wf(&self) -> bool {
        &&& valid_dims(self.extents())
        &&& self.buffer().len() == prod(self.extents())
    }

    /// Builds a tensor from its row-major elements and its extents.
    pub fn new(data: Vec<T>, shape: Vec<usize>) -> (r: Self)
        requires
            valid_dims(shape@),
            data@.len() == prod(shape@),
        ensures
            r.wf(),
            r.buffer() == data@,
            r.extents() == shape@,
    {
        Tensor { data, shape: Shape::from_dims(shape) }
    }

    /// The raw elements, in row-major order.
    pub fn data(&self) -> (r: &[T])
        ensures
            r@ == self.buffer(),
    {
        self.data.as_slice()
    }

    /// The extents, one per axis.
    pub fn shape(&self) -> (r: &[usize])
        ensures
            r@ == self.extents(),
    {
        self.shape.dims()
    }

    /// The number of elements.
    pub fn numel(&self) -> (r: usize)
        requires
            self.wf(),
        ensures
            r == prod(self.extents()),
            r == self.buffer().len(),
    {
        self.shape.numel()
    }

    /// A view on the whole tensor.
    pub fn view(&self) -> (r: View<'_, T>)
        requires
            self.wf(),
        ensures
            r.wf(),
            r.buffer() == self.buffer(),
            r.extents() == self.extents(),
    {
        View::new(self.data.as_slice(), self.shape.dims())
    }

    /// Gives the tensor the shape `new_shape`, in which one axis may be the
    /// wildcard zero, inferred from the element count. The buffer is kept as it is.
    pub fn reshape(self, new_shape: Vec<usize>) -> (r: Result<Self, ReshapeError>)
        requires
            self.wf(),
        ensures
            match reshape_result(new_shape@, self.buffer().len()) {
                Ok(dims) => r matches Ok(t) && t.wf() && t.buffer() == self.buffer()
                    && t.extents() == dims,
                Err(e) => r == Err::<Self, ReshapeError>(e),
            },
    {
        let n = self.data.len();
        match resolve_shape(new_shape, n) {
            Ok(dims) => Ok(Tensor { data: self.data, shape: Shape::from_dims(dims) }),
            Err(e) => Err(e),
        }
    }
}

impl<T: Copy> Tensor<T> {
    /// A tensor of the given extents with every element equal to `scalar`.
    pub fn from_scalar(scalar: T, shape: Vec<usize>) -> (r: Self)
        requires
            valid_dims(shape@),
        ensures
            r.wf(),
            r.extents() == shape@,
            r.buffer() == Seq::new(prod(shape@), |_i: int| scalar),
    {
        let shape = Shape::from_dims(shape);
        let n = shape.numel();
        Tensor { data: filled(scalar, n), shape }
    }

    /// Converts every element to `U`, keeping the shape.
    pub fn cast<U: From<T>>(self) -> (r: Tensor<U>)
        requires
            self.wf(),
        ensures
            r.wf(),
            r.extents() == self.extents(),
            r.buffer().len() == self.buffer().len(),
            U::obeys_from_spec() ==> r.buffer() == self.buffer().map_values(|x: T| U::from_spec(x)),
    {
        let n = self.data.len();
        let mut out: Vec<U> = Vec::with_capacity(n);
        let mut i: usize = 0;
        while i < n
            invariant
                0 <= i <= n,
                n == self.buffer().len(),
                out@.len() == i,
                U::obeys_from_spec() ==> forall|j: int|
                    0 <= j < i ==> out@[j] == U::from_spec(#[trigger] self.buffer()[j]),
            decreases n - i,
        {
            out.push(U::from(self.data[i]));
            i += 1;
        }
        assert(U::obeys_from_spec() ==> out@ =~= self.buffer().map_values(|x: T| U::from_spec(x)));
        Tensor { data: out, shape: self.shape }
    }
}

impl<T> Convert<T> for Tensor<T> {
    open spec fn elements(&self) -> Seq<T> {
        self.buffer()
    }

    fn length(&self) -> (r: usize) {
        self.data.len()
    }

    fn into_tensor(self, shape: Vec<usize>) -> (r: Tensor<T>) {
        Tensor::new(self.data, shape)
    }
}

impl<'a, T: Copy> Index for &'a Tensor<T> {
    type Output = Entry<T, View<'a, T>>;

    open spec fn position_ok(self, position: usize) -> bool {
        self.wf() && position < self.extents()[0]
    }

    open spec fn indexes_to(self, position: usize, r: Entry<T, View<'a, T>>) -> bool {
        entry_at(self.buffer(), self.extents(), position as int, r)
    }

    /// Indexes the first axis at `position`, through a view on the whole tensor.
    fn index(self, position: usize) -> (r: Entry<T, View<'a, T>>) {
        let v = self.view();
        (&v).index(position)
    }
}

impl<T: Identities> Tensor<T> {
    /// A tensor of the given extents filled with zeros.
    pub fn zeros(shape: Vec<usize>) -> (r: Self)
        requires
            valid_dims(shape@),
        ensures
            r.wf(),
            r.extents() == shape@,
            r.buffer() == Seq::new(prod(shape@), |_i: int| T::spec_zero()),
    {
        let shape = Shape::from_dims(shape);
        let n = shape.numel();
        Tensor { data: filled(T::zero(), n), shape }
    }

    /// A tensor of the given extents filled with ones.
    pub fn ones(shape: Vec<usize>) -> (r: Self)
        requires
            valid_dims(shape@),
        ensures
            r.wf(),
            r.extents() == shape@,
            r.buffer() == Seq::new(prod(shape@), |_i: int| T::spec_one()),
    {
        let shape = Shape::from_dims(shape);
        let n = shape.numel();
        Tensor { data: filled(T::one(), n), shape }
    }
}

impl<T: PartialEq + PartialEqSpec> Tensor<T> {
    /// Equal extents, and elements equal position by position.
    pub open spec fn same_as(&self, other: &Tensor<T>) -> bool {
        &&& self.extents() == other.extents()
        &&& self.buffer().len() == other.buffer().len()
        &&& forall|j: int|
            0 <= j < self.buffer().len() ==> (#[trigger] self.buffer()[j]).eq_spec(
                &other.buffer()[j],
            )
    }
}

/// Where the element type's `==` is plain equality, two tensors are `==`
/// exactly when their extents and their buffers are equal.
pub proof fn lemma_eq_iff_same_parts<T: PartialEq + PartialEqSpec>(a: Tensor<T>, b: Tensor<T>)
    requires
        forall|x: T, y: T| #[trigger] x.eq_spec(&y) <==> x == y,
    ensures
        a.same_as(&b) <==> (a.extents() == b.extents() && a.buffer() == b.buffer()),
{
    if a.same_as(&b) {
        assert(a.buffer() =~= b.buffer());
    }
}

impl<T: PartialEq + PartialEqSpec> PartialEq for Tensor<T> {
    /// Equal extents, and equal elements position by position.
    fn eq(&self, other: &Tensor<T>) -> (r: bool)
        ensures
            T::obeys_eq_spec() ==> (r == self.same_as(other)),
    {
        if self.shape != other.shape {
            return false;
        }
        let n = self.data.len();
        if n != other.data.len() {
            return false;
        }
        let mut i: usize = 0;
        while i < n
            invariant
                0 <= i <= n,
                n == self.buffer().len(),
                n == other.buffer().len(),
                self.extents() == other.extents(),
                T::obeys_eq_spec() ==> forall|j: int|
                    0 <= j < i ==> (#[trigger] self.buffer()[j]).eq_spec(&other.buffer()[j]),
            decreases n - i,
        {
            if !self.data[i].eq(&other.data[i]) {
                return false;
            }
            i += 1;
        }
        true
    }
}

impl<T: PartialEq + PartialEqSpec> vstd::std_specs::cmp::PartialEqSpecImpl for Tensor<T> {
    open spec fn obeys_eq_spec() -> bool {
        T::obeys_eq_spec()
    }

    open spec fn eq_spec(&self, other: &Tensor<T>) -> bool {
        self.same_as(other)
    }
}

} // verus!
