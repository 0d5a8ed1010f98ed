use vstd::prelude::*;

verus! {

/// Product of all extents (1 for an empty sequence).
pub open spec fn prod(s: Seq<usize>) -> nat
    decreases s.len(),
{
    if s.len() == 0 {
        1
    } else {
        (s[0] as nat) * prod(s.drop_first())
    }
}

/// At least one extent is nonzero.
pub open spec fn has_nonzero(s: Seq<usize>) -> bool {
    exists|i: int| 0 <= i < s.len() && s[i] != 0
}

/// Extents that a `Shape` may hold: not all zero, and an element count that fits in `usize`.
pub open spec fn valid_dims(s: Seq<usize>) -> bool {
    has_nonzero(s) && prod(s) <= usize::MAX
}

proof fn lemma_prod_has_zero(s: Seq<usize>, k: int)
    requires
        0 <= k < s.len(),
        s[k] == 0,
    ensures
        prod(s) == 0,
    decreases s.len(),
{
    if k > 0 {
        lemma_prod_has_zero(s.drop_first(), k - 1);
    }
}

proof fn lemma_prod_suffix_le(s: Seq<usize>, i: int)
    requires
        0 <= i <= s.len(),
        forall|j: int| 0 <= j < s.len() ==> s[j] != 0,
    ensures
        prod(s.skip(i)) <= prod(s),
    decreases i,
{
    if i > 0 {
        let t = s.drop_first();
        lemma_prod_suffix_le(t, i - 1);
        assert(t.skip(i - 1) =~= s.skip(i));
        let a = s[0] as nat;
        let x = prod(t);
        assert(x <= a * x) by (nonlinear_arith)
            requires
                a >= 1,
        ;
    } else {
        assert(s.skip(0) =~= s);
    }
}

/// The product of `dims`, or `None` where it does not fit in `usize`.
pub fn checked_product(dims: &[usize]) -> (r: Option<usize>)
    ensures
        r == (if prod(dims@) <= usize::MAX {
            Some(prod(dims@) as usize)
        } else {
            None::<usize>
        }),
{
    let n = dims.len();
    let mut i: usize = 0;
    while i < n
        invariant
            0 <= i <= n,
            n == dims@.len(),
            forall|j: int| 0 <= j < i ==> dims@[j] != 0,
        decreases n - i,
    {
        if dims[i] == 0 {
            proof {
                lemma_prod_has_zero(dims@, i as int);
            }
            return Some(0);
        }
        i += 1;
    }
    let mut acc: usize = 1;
    let mut k: usize = n;
    assert(dims@.skip(n as int) =~= Seq::<usize>::empty());
    while k > 0
        invariant
            0 <= k <= n,
            n == dims@.len(),
            forall|j: int| 0 <= j < n ==> dims@[j] != 0,
            acc == prod(dims@.skip(k as int)),
        decreases k,
    {
        let d = dims[k - 1];
        assert(dims@.skip(k - 1).drop_first() =~= dims@.skip(k as int));
        assert(dims@.skip(k - 1)[0] == d);
        assert(prod(dims@.skip(k - 1)) == (d as nat) * prod(dims@.skip(k as int)));
        match acc.checked_mul(d) {
            Some(m) => {
                acc = m;
            },
            None => {
                proof {
                    assert((d as nat) * (acc as nat) == (acc as nat) * (d as nat)) by (nonlinear_arith);
                    lemma_prod_suffix_le(dims@, k - 1);
                }
                return None;
            },
        }
        k -= 1;
    }
    assert(dims@.skip(0) =~= dims@);
    Some(acc)
}

/// The product of `dims`, where it fits in `usize`.
pub fn product(dims: &[usize]) -> (r: usize)
    requires
        prod(dims@) <= usize::MAX,
    ensures
        r == prod(dims@),
{
    match checked_product(dims) {
        Some(p) => p,
        None => 0,
    }
}

/// Whether `dims` may form a `Shape`.
pub fn is_valid_dims(dims: &[usize]) -> (r: bool)
    ensures
        r == valid_dims(dims@),
{
    let mut found = false;
    let mut i: usize = 0;
    while i < dims.len()
        invariant
            0 <= i <= dims@.len(),
            found == (exists|j: int| 0 <= j < i && dims@[j] != 0),
        decreases dims@.len() - i,
    {
        if dims[i] != 0 {
            found = true;
        }
        i += 1;
    }
    if !found {
        return false;
    }
    match checked_product(dims) {
        Some(_) => true,
        None => false,
    }
}

/// The extents of a tensor, one per axis.
#[derive(Debug)]
pub struct Shape {
    dims: Vec<usize>,
}

impl vstd::view::View for Shape {
    type V = Seq<usize>;

    closed spec fn view(&self) -> Seq<usize> {
        self.dims@
    }
}

impl Shape {
    pub open spec fn wf(&self) -> bool {
        valid_dims(self@)
    }

    /// Builds a shape; an all-zero list of extents is not a shape.
    pub fn from_dims(dims: Vec<usize>) -> (r: Shape)
        requires
            valid_dims(dims@),
        ensures
            r@ == dims@,
            r.wf(),
    {
        Shape { dims }
    }

    /// The rank: the number of axes.
    pub fn size(&self) -> (r: usize)
        ensures
            r == self@.len(),
    {
        self.dims.len()
    }

    /// The number of elements: the product of all extents.
    pub fn numel(&self) -> (r: usize)
        requires
            self.wf(),
        ensures
            r == prod(self@),
    {
        product(self.dims.as_slice())
    }

    pub fn dims(&self) -> (r: &[usize])
        ensures
            r@ == self@,
    {
        self.dims.as_slice()
    }
}

impl PartialEq for Shape {
    fn eq(&self, other: &Shape) -> (r: bool)
        ensures
            r == (self@ == other@),
    {
        let n = self.dims.len();
        if n != other.dims.len() {
            return false;
        }
        let mut i: usize = 0;
        while i < n
            invariant
                0 <= i <= n,
                n == self@.len(),
                n == other@.len(),
                forall|j: int| 0 <= j < i ==> self@[j] == other@[j],
            decreases n - i,
        {
            if self.dims[i] != other.dims[i] {
                return false;
            }
            i += 1;
        }
        assert(self@ =~= other@);
        true
    }
}

impl vstd::std_specs::cmp::PartialEqSpecImpl for Shape {
    open spec fn obeys_eq_spec() -> bool {
        true
    }

    open spec fn eq_spec(&self, other: &Shape) -> bool {
        self@ == other@
    }
}

} // verus!
