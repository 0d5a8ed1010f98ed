use vstd::arithmetic::div_mod::lemma_fundamental_div_mod;
use vstd::prelude::*;
use vstd::view::View as _;

use crate::shape::{checked_product, has_nonzero, prod};

verus! {

/// Why a reshape target was refused.
#[derive(Debug, Clone, Copy, PartialEq, Eq, Structural)]
pub enum ReshapeError {
    /// More than one wildcard (zero) axis: the inference is ambiguous.
    MultipleWildcards,
    /// The element count is not a multiple of the product of the other axes.
    InexactInference,
    /// Every resolved extent is zero.
    DegenerateShape,
    /// The resolved shape counts another number of elements than the tensor holds.
    SizeMismatch,
}

/// The number of wildcard (zero) axes in a reshape target.
pub open spec fn wildcards(s: Seq<usize>) -> nat
    decreases s.len(),
{
    if s.len() == 0 {
        0
    } else {
        wildcards(s.drop_last()) + (if s.last() == 0 {
            1nat
        } else {
            0nat
        })
    }
}

/// The product of the non-wildcard extents of a reshape target.
pub open spec fn known_prod(s: Seq<usize>) -> nat
    decreases s.len(),
{
    if s.len() == 0 {
        1
    } else {
        known_prod(s.drop_last()) * (if s.last() == 0 {
            1nat
        } else {
            s.last() as nat
        })
    }
}

/// The target with each wildcard axis replaced by `numel / known_prod(s)`.
pub open spec fn resolve(s: Seq<usize>, numel: nat) -> Seq<usize> {
    s.map_values(
        |d: usize|
            if d == 0 {
                (numel / known_prod(s)) as usize
            } else {
                d
            },
    )
}

/// The shape that reshaping `numel` elements to the target `s` gives, or why it fails.
pub open spec fn reshape_result(s: Seq<usize>, numel: nat) -> Result<Seq<usize>, ReshapeError> {
    if wildcards(s) >= 2 {
        Err(ReshapeError::MultipleWildcards)
    } else if wildcards(s) == 1 && numel % known_prod(s) != 0 {
        Err(ReshapeError::InexactInference)
    } else if !has_nonzero(resolve(s, numel)) {
        Err(ReshapeError::DegenerateShape)
    } else if prod(resolve(s, numel)) != numel {
        Err(ReshapeError::SizeMismatch)
    } else {
        Ok(resolve(s, numel))
    }
}

proof fn lemma_known_prod_pos(s: Seq<usize>)
    ensures
        known_prod(s) >= 1,
    decreases s.len(),
{
    if s.len() > 0 {
        lemma_known_prod_pos(s.drop_last());
        let a = known_prod(s.drop_last());
        let f: nat = if s.last() == 0 {
            1nat
        } else {
            s.last() as nat
        };
        assert(a * f >= 1) by (nonlinear_arith)
            requires
                a >= 1,
                f >= 1,
        ;
    }
}

proof fn lemma_prod_drop_last(s: Seq<usize>)
    requires
        s.len() > 0,
    ensures
        prod(s) == prod(s.drop_last()) * (s.last() as nat),
    decreases s.len(),
{
    let l = s.last() as nat;
    if s.len() == 1 {
        assert(s.drop_first().len() == 0);
        assert(s.drop_last().len() == 0);
        assert(s[0] as nat * 1 == 1 * l);
        assert(prod(s.drop_first()) == 1);
        assert(prod(s) == (s[0] as nat) * 1);
        assert(prod(s.drop_last()) == 1);
    } else {
        let t = s.drop_first();
        lemma_prod_drop_last(t);
        assert(t.drop_last() =~= s.drop_last().drop_first());
        assert(t.last() == s.last());
        let a = s[0] as nat;
        let x = prod(t.drop_last());
        assert(s.drop_last()[0] == s[0]);
        assert(prod(s.drop_last()) == a * x);
        assert(prod(t) == x * l);
        assert(prod(s) == a * prod(t));
        assert(a * (x * l) == (a * x) * l) by (nonlinear_arith);
    }
}

proof fn lemma_no_wildcards(s: Seq<usize>)
    requires
        wildcards(s) == 0,
    ensures
        forall|j: int| 0 <= j < s.len() ==> s[j] != 0,
    decreases s.len(),
{
    if s.len() > 0 {
        lemma_no_wildcards(s.drop_last());
        assert forall|j: int| 0 <= j < s.len() implies s[j] != 0 by {
            if j < s.len() - 1 {
                assert(s.drop_last()[j] == s[j]);
            }
        }
    }
}

proof fn lemma_one_wildcard(s: Seq<usize>, k: int)
    requires
        wildcards(s) == 1,
        0 <= k < s.len(),
        s[k] == 0,
    ensures
        forall|j: int| 0 <= j < s.len() && j != k ==> s[j] != 0,
    decreases s.len(),
{
    let t = s.drop_last();
    if s.last() == 0 {
        lemma_no_wildcards(t);
        assert forall|j: int| 0 <= j < s.len() && j != k implies s[j] != 0 by {
            if j < s.len() - 1 {
                assert(t[j] == s[j]);
            }
            if k < s.len() - 1 {
                assert(t[k] == s[k]);
            }
        }
    } else {
        assert(t[k] == s[k]);
        lemma_one_wildcard(t, k);
        assert forall|j: int| 0 <= j < s.len() && j != k implies s[j] != 0 by {
            if j < s.len() - 1 {
                assert(t[j] == s[j]);
            }
        }
    }
}

/// `s` with each wildcard axis replaced by `q`.
spec fn fill_wildcards(s: Seq<usize>, q: usize) -> Seq<usize> {
    s.map_values(
        |d: usize|
            if d == 0 {
                q
            } else {
                d
            },
    )
}

proof fn lemma_prod_filled(s: Seq<usize>, q: usize)
    requires
        wildcards(s) <= 1,
    ensures
        wildcards(s) == 0 ==> prod(fill_wildcards(s, q)) == known_prod(s),
        wildcards(s) == 1 ==> prod(fill_wildcards(s, q)) == known_prod(s) * (q as nat),
    decreases s.len(),
{
    let m = fill_wildcards(s, q);
    if s.len() > 0 {
        let t = s.drop_last();
        lemma_prod_filled(t, q);
        assert(m.drop_last() =~= fill_wildcards(t, q));
        lemma_prod_drop_last(m);
        let pt = prod(fill_wildcards(t, q));
        let kt = known_prod(t);
        let qq = q as nat;
        if s.last() == 0 {
            assert(m.last() == q);
            assert(pt * qq == kt * 1 * qq) by (nonlinear_arith)
                requires
                    pt == kt,
            ;
        } else {
            let l = s.last() as nat;
            assert(m.last() == s.last());
            if wildcards(s) == 1 {
                assert(pt * l == kt * l * qq) by (nonlinear_arith)
                    requires
                        pt == kt * qq,
                ;
            }
        }
    }
}

/// Reshaping to a target without a wildcard whose extents are not all zero
/// and count the tensor's elements succeeds, with that very target as shape.
pub proof fn lemma_reshape_same_count(s: Seq<usize>, numel: nat)
    requires
        wildcards(s) == 0,
        has_nonzero(s),
        prod(s) == numel,
    ensures
        reshape_result(s, numel) == Ok::<Seq<usize>, ReshapeError>(s),
{
    lemma_no_wildcards(s);
    assert(resolve(s, numel) =~= s);
}

/// A target with two or more wildcard axes is refused as ambiguous, whatever
/// the element count.
pub proof fn lemma_reshape_ambiguous(s: Seq<usize>, numel: nat)
    requires
        wildcards(s) >= 2,
    ensures
        reshape_result(s, numel) == Err::<Seq<usize>, ReshapeError>(ReshapeError::MultipleWildcards),
{
}

/// With one wildcard axis `k` and an element count that the other extents
/// divide, reshaping succeeds: axis `k` becomes `numel / known_prod(s)` and
/// the other axes keep their extents. (Where `numel` is zero, the target must
/// have another axis, else every resolved extent would be zero.)
pub proof fn lemma_reshape_wildcard(s: Seq<usize>, numel: nat, k: int)
    requires
        wildcards(s) == 1,
        0 <= k < s.len(),
        s[k] == 0,
        numel <= usize::MAX,
        numel % known_prod(s) == 0,
        numel > 0 || s.len() >= 2,
    ensures
        reshape_result(s, numel) == Ok::<Seq<usize>, ReshapeError>(resolve(s, numel)),
        resolve(s, numel).len() == s.len(),
        resolve(s, numel)[k] == numel / known_prod(s),
        forall|j: int| 0 <= j < s.len() && j != k ==> resolve(s, numel)[j] == s[j],
{
    let kp = known_prod(s);
    lemma_known_prod_pos(s);
    lemma_one_wildcard(s, k);
    lemma_fundamental_div_mod(numel as int, kp as int);
    let q = numel / kp;
    assert(q <= numel) by (nonlinear_arith)
        requires
            numel == kp * q,
            kp >= 1,
    ;
    assert(resolve(s, numel) =~= fill_wildcards(s, q as usize));
    lemma_prod_filled(s, q as usize);
    if numel > 0 {
        assert(q > 0) by (nonlinear_arith)
            requires
                numel == kp * q,
                numel > 0,
        ;
        assert(resolve(s, numel)[k] != 0);
    } else {
        let j = if k == 0 {
            1int
        } else {
            0int
        };
        assert(resolve(s, numel)[j] != 0);
    }
}

/// Counts the wildcard axes of `s` and multiplies its other extents
/// (`None` where that product does not fit in `usize`).
fn scan_target(s: &Vec<usize>) -> (r: (usize, Option<usize>))
    ensures
        r.0 == wildcards(s@),
        r.1 == (if known_prod(s@) <= usize::MAX {
            Some(known_prod(s@) as usize)
        } else {
            None::<usize>
        }),
{
    let mut zeros: usize = 0;
    let mut kp: Option<usize> = Some(1);
    let mut i: usize = 0;
    assert(s@.take(0) =~= Seq::<usize>::empty());
    while i < s.len()
        invariant
            0 <= i <= s@.len(),
            zeros == wildcards(s@.take(i as int)),
            zeros <= i,
            kp == (if known_prod(s@.take(i as int)) <= usize::MAX {
                Some(known_prod(s@.take(i as int)) as usize)
            } else {
                None::<usize>
            }),
        decreases s@.len() - i,
    {
        let d = s[i];
        let ghost t = s@.take(i as int + 1);
        assert(t.drop_last() =~= s@.take(i as int));
        assert(t.last() == d);
        let f: usize = if d == 0 {
            zeros += 1;
            1
        } else {
            d
        };
        let ghost a = known_prod(s@.take(i as int));
        assert(known_prod(t) == a * (f as nat));
        kp = match kp {
            Some(k) => k.checked_mul(f),
            None => {
                assert(a * (f as nat) >= a) by (nonlinear_arith)
                    requires
                        f >= 1,
                ;
                None
            },
        };
        i += 1;
    }
    assert(s@.take(s@.len() as int) =~= s@);
    (zeros, kp)
}

/// Resolves a reshape target for a tensor of `numel` elements: at most one
/// axis may be the wildcard zero, whose extent is then inferred.
pub fn resolve_shape(target: Vec<usize>, numel: usize) -> (r: Result<Vec<usize>, ReshapeError>)
    ensures
        match r {
            Ok(dims) => reshape_result(target@, numel as nat) == Ok::<Seq<usize>, ReshapeError>(
                dims@,
            ),
            Err(e) => reshape_result(target@, numel as nat) == Err::<Seq<usize>, ReshapeError>(e),
        },
{
    let (zeros, known) = scan_target(&target);
    proof {
        lemma_known_prod_pos(target@);
    }
    if zeros >= 2 {
        return Err(ReshapeError::MultipleWildcards);
    }
    let inferred: usize = match known {
        Some(k) => {
            if zeros == 1 && numel % k != 0 {
                return Err(ReshapeError::InexactInference);
            }
            numel / k
        },
        None => {
            assert((numel as nat) / known_prod(target@) == 0) by (nonlinear_arith)
                requires
                    numel < known_prod(target@),
            ;
            assert((numel as nat) % known_prod(target@) == numel) by (nonlinear_arith)
                requires
                    numel < known_prod(target@),
            ;
            if zeros == 1 && numel != 0 {
                return Err(ReshapeError::InexactInference);
            }
            0
        },
    };
    let ghost want = resolve(target@, numel as nat);
    let mut dims: Vec<usize> = Vec::with_capacity(target.len());
    let mut nonzero = false;
    let mut i: usize = 0;
    while i < target.len()
        invariant
            0 <= i <= target@.len(),
            want.len() == target@.len(),
            inferred == (numel as nat) / known_prod(target@),
            want == resolve(target@, numel as nat),
            dims@ == want.take(i as int),
            nonzero == (exists|j: int| 0 <= j < i && want[j] != 0),
        decreases target@.len() - i,
    {
        let d = target[i];
        let e = if d == 0 {
            inferred
        } else {
            d
        };
        assert(want[i as int] == e);
        dims.push(e);
        if e != 0 {
            nonzero = true;
        }
        i += 1;
        assert(dims@ =~= want.take(i as int));
        assert(nonzero == (exists|j: int| 0 <= j < i && want[j] != 0)) by {
            if e != 0 {
                assert(want[i - 1] != 0);
            }
        }
    }
    assert(dims@ =~= want);
    if !nonzero {
        return Err(ReshapeError::DegenerateShape);
    }
    match checked_product(dims.as_slice()) {
        Some(p) => {
            if p != numel {
                return Err(ReshapeError::SizeMismatch);
            }
        },
        None => {
            return Err(ReshapeError::SizeMismatch);
        },
    }
    Ok(dims)
}

} // verus!
