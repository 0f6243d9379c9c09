//! Elements of a prime field of `u64`-sized modulus.
//!
//! The fold engine only needs addition and multiplication of reduced
//! residues; both are stated exactly, as the modular reduction of the
//! mathematical sum or product.

use vstd::arithmetic::div_mod::lemma_mod_bound;
use vstd::prelude::*;

verus! {

/// The residue class of `a + b` modulo `m`.
pub open spec fn fe_add(m: int, a: int, b: int) -> int {
    (a + b) % m
}

/// The residue class of `a * b` modulo `m`.
pub open spec fn fe_mul(m: int, a: int, b: int) -> int {
    (a * b) % m
}

/// Whether every entry of `s` is a reduced residue modulo `m`.
pub open spec fn reduced(m: int, s: Seq<int>) -> bool {
    forall|i: int| 0 <= i < s.len() ==> 0 <= #[trigger] s[i] < m
}

/// An element of the field of integers modulo `M`, stored as its reduced
/// representative in `0 .. M`.
#[derive(Clone, Copy, Debug, PartialEq, Eq)]
pub struct Fe<const M: u64> {
    value: u64,
}

impl<const M: u64> Fe<M> {
    /// The integer this element stands for.
    pub closed spec fn val(self) -> int {
        self.value as int
    }

    /// Well-formed elements are reduced modulo `M`.
    pub open spec fn wf(self) -> bool {
        0 <= self.val() < M
    }

    /// Builds the element of the residue class of `v`.
    pub fn new(v: u64) -> (r: Fe<M>)
        requires
            M >= 2,
        ensures
            r.wf(),
            r.val() == v as int % M as int,
    {
        Fe { value: v % M }
    }

    /// The additive identity.
    pub fn zero() -> (r: Fe<M>)
        requires
            M >= 2,
        ensures
            r.wf(),
            r.val() == 0,
    {
        Fe { value: 0 }
    }

    /// The reduced representative of this element.
    pub fn representative(self) -> (r: u64)
        ensures
            r == self.val(),
    {
        self.value
    }

    /// Field addition.
    pub fn add(self, other: Fe<M>) -> (r: Fe<M>)
        requires
            M >= 2,
        ensures
            r.wf(),
            r.val() == fe_add(M as int, self.val(), other.val()),
    {
        let s: u128 = self.value as u128 + other.value as u128;
        proof {
            lemma_mod_bound(s as int, M as int);
        }
        let rem: u128 = s % (M as u128);
        Fe { value: rem as u64 }
    }

    /// Field multiplication.
    pub fn mul(self, other: Fe<M>) -> (r: Fe<M>)
        requires
            M >= 2,
        ensures
            r.wf(),
            r.val() == fe_mul(M as int, self.val(), other.val()),
    {
        proof {
            assert(self.value as int * other.value as int <= (u64::MAX as int)
                * (u64::MAX as int)) by (nonlinear_arith)
                requires
                    0 <= self.value as int <= u64::MAX as int,
                    0 <= other.value as int <= u64::MAX as int,
            ;
        }
        let p: u128 = self.value as u128 * other.value as u128;
        proof {
            lemma_mod_bound(p as int, M as int);
        }
        let rem: u128 = p % (M as u128);
        Fe { value: rem as u64 }
    }
}

/// The residues of a sequence of field elements, in order.
pub open spec fn vals<const M: u64>(s: Seq<Fe<M>>) -> Seq<int> {
    Seq::new(s.len(), |i: int| s[i].val())
}

/// Elements with the same residue are the same element, so a sequence of
/// field elements is determined by its residues: outputs of the fold engine
/// that agree residue for residue are identical values.
pub proof fn lemma_vals_injective<const M: u64>(a: Seq<Fe<M>>, b: Seq<Fe<M>>)
    requires
        vals(a) == vals(b),
    ensures
        a == b,
{
    assert(vals(a).len() == a.len());
    assert(vals(b).len() == b.len());
    assert forall|i: int| 0 <= i < a.len() implies a[i] == b[i] by {
        assert(vals(a)[i] == a[i].val());
        assert(vals(b)[i] == b[i].val());
    }
    assert(a =~= b);
}

} // verus!
