//! Polynomials over a prime field, as ordered coefficient sequences.
//!
//! Index 0 is the constant term; coefficient positions increase with the
//! degree.  Trailing zero coefficients are kept as given: the fold engine
//! reads coefficient positions by parity, so the sequence is never reordered
//! or trimmed behind the caller's back.

use vstd::prelude::*;

use crate::field::{fe_add, fe_mul, reduced, vals, Fe};

verus! {

/// The value at `x` of the polynomial with coefficient residues `p`,
/// all arithmetic modulo `m`: `p[0] + x * (p[1] + x * (...))`.
pub open spec fn poly_eval(m: int, p: Seq<int>, x: int) -> int
    decreases p.len(),
{
    if p.len() == 0 {
        0
    } else {
        fe_add(m, p[0], fe_mul(m, x, poly_eval(m, p.drop_first(), x)))
    }
}

/// The position of the highest non-zero coefficient of `p`, and 0 when
/// every coefficient is zero or `p` is constant.
pub open spec fn spec_degree(p: Seq<int>) -> int
    decreases p.len(),
{
    if p.len() <= 1 {
        0
    } else if p.last() != 0 {
        p.len() - 1
    } else {
        spec_degree(p.drop_last())
    }
}

/// A polynomial over the field of integers modulo `M`.
#[derive(Debug)]
pub struct Polynomial<const M: u64> {
    coefficients: Vec<Fe<M>>,
}

impl<const M: u64> PartialEq for Polynomial<M> {
    /// Two polynomials are equal when they have the same coefficient
    /// residues at the same positions.
    fn eq(&self, other: &Polynomial<M>) -> (r: bool) {
        if self.coefficients.len() != other.coefficients.len() {
            proof {
                assert(self@.len() != other@.len());
            }
            return false;
        }
        let n = self.coefficients.len();
        let mut i: usize = 0;
        while i < n
            invariant
                n == self.coefficients@.len(),
                n == other.coefficients@.len(),
                i <= n,
                forall|j: int| 0 <= j < i ==> self@[j] == other@[j],
            decreases n - i,
        {
            proof {
                assert(self@[i as int] == self.coefficients@[i as int].val());
                assert(other@[i as int] == other.coefficients@[i as int].val());
            }
            if self.coefficients[i].representative() != other.coefficients[i].representative() {
                return false;
            }
            i = i + 1;
        }
        proof {
            assert(self@ =~= other@);
        }
        true
    }
}

impl<const M: u64> vstd::std_specs::cmp::PartialEqSpecImpl for Polynomial<M> {
    open spec fn obeys_eq_spec() -> bool {
        true
    }

    open spec fn eq_spec(&self, other: &Polynomial<M>) -> bool {
        self@ == other@
    }
}

impl<const M: u64> View for Polynomial<M> {
    type V = Seq<int>;

    /// A polynomial is modelled by the sequence of its coefficient residues.
    closed spec fn view(&self) -> Seq<int> {
        vals(self.coefficients@)
    }
}

impl<const M: u64> Polynomial<M> {
    /// Every coefficient is a reduced residue.
    pub open spec fn wf(self) -> bool {
        reduced(M as int, self@)
    }

    /// Builds the polynomial with the given coefficients, constant term
    /// first.  The sequence is taken as it is, trailing zeros included.
    pub fn new(coefficients: Vec<Fe<M>>) -> (r: Polynomial<M>)
        ensures
            r@ == vals(coefficients@),
    {
        Polynomial { coefficients }
    }

    /// The coefficients, constant term first.
    pub fn coefficients(&self) -> (r: &Vec<Fe<M>>)
        ensures
            vals(r@) == self@,
    {
        &self.coefficients
    }

    /// The number of coefficients.
    pub fn len(&self) -> (r: usize)
        ensures
            r == self@.len(),
    {
        assert(self@.len() == self.coefficients@.len());
        self.coefficients.len()
    }

    /// The position of the highest non-zero coefficient; 0 for constant
    /// and all-zero polynomials.
    pub fn degree(&self) -> (r: usize)
        ensures
            r == spec_degree(self@),
    {
        let mut i: usize = self.coefficients.len();
        assert(self@.take(i as int) =~= self@);
        while i > 1
            invariant
                i <= self.coefficients@.len(),
                self@.len() == self.coefficients@.len(),
                spec_degree(self@) == spec_degree(self@.take(i as int)),
            decreases i,
        {
            if self.coefficients[i - 1].representative() != 0 {
                proof {
                    assert(self@[i - 1] == self.coefficients@[i - 1].val());
                    assert(self@.take(i as int).last() == self@[i - 1]);
                }
                return i - 1;
            }
            proof {
                assert(self@.take(i as int).last() == self@[i - 1]);
                assert(self@.take(i as int).drop_last() =~= self@.take(i - 1));
            }
            i = i - 1;
        }
        0
    }

    /// The value of the polynomial at the point `x`, computed by Horner's
    /// rule from the highest coefficient down.
    pub fn evaluate(&self, x: &Fe<M>) -> (r: Fe<M>)
        requires
            M >= 2,
        ensures
            r.wf(),
            r.val() == poly_eval(M as int, self@, x.val()),
    {
        let mut acc: Fe<M> = Fe::zero();
        let mut i: usize = self.coefficients.len();
        assert(self@.skip(i as int).len() == 0);
        while i > 0
            invariant
                M >= 2,
                i <= self.coefficients@.len(),
                self@.len() == self.coefficients@.len(),
                acc.wf(),
                acc.val() == poly_eval(M as int, self@.skip(i as int), x.val()),
            decreases i,
        {
            i = i - 1;
            let c = self.coefficients[i];
            proof {
                assert(self@[i as int] == self.coefficients@[i as int].val());
                assert(self@.skip(i as int).drop_first() =~= self@.skip(i + 1));
                assert(self@.skip(i as int)[0] == self@[i as int]);
            }
            acc = c.add(x.mul(acc));
        }
        proof {
            assert(self@.skip(0) =~= self@);
        }
        acc
    }
}

} // verus!
