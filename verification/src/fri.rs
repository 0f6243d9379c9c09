//! The FRI layer-folding engine.
//!
//! One layer transition folds the polynomial's coefficients by parity with a
//! caller-supplied scalar, squares the first half of the evaluation domain,
//! and evaluates the folded polynomial over the new domain.  The folding
//! scalar comes from an outside transcript and is treated as an opaque field
//! value; committing the evaluations and deciding how many rounds to run are
//! the caller's business.

use vstd::arithmetic::div_mod::lemma_small_mod;
use vstd::prelude::*;

use crate::field::{fe_add, fe_mul, reduced, vals, Fe};
use crate::polynomial::{poly_eval, Polynomial};

verus! {

/// The coefficients of the fold of `p` by `beta`: writing `g` for the
/// even-position and `h` for the odd-position coefficients of `p`, the
/// result is `g + beta * h`, the shorter side padded with trailing zeros,
/// all arithmetic modulo `m`.
pub open spec fn fold_spec(m: int, p: Seq<int>, beta: int) -> Seq<int> {
    Seq::new((p.len() + 1) / 2, |i: int|
        if 2 * i + 1 < p.len() {
            fe_add(m, p[2 * i], fe_mul(m, beta, p[2 * i + 1]))
        } else {
            fe_add(m, p[2 * i], 0)
        })
}

/// The polynomial built purely from the even-position coefficients of `p`.
pub open spec fn even_part(p: Seq<int>) -> Seq<int> {
    Seq::new((p.len() + 1) / 2, |i: int| p[2 * i])
}

/// The next evaluation domain: the squares of the first half of `d`,
/// modulo `m`.
pub open spec fn next_domain_spec(m: int, d: Seq<int>) -> Seq<int> {
    Seq::new(d.len() / 2, |i: int| fe_mul(m, d[i], d[i]))
}

/// The evaluation table of the polynomial with coefficients `p` over the
/// points of `d`, in domain order, modulo `m`.
pub open spec fn eval_table_spec(m: int, p: Seq<int>, d: Seq<int>) -> Seq<int> {
    Seq::new(d.len(), |i: int| poly_eval(m, p, d[i]))
}

/// Splits the coefficients of `poly` by parity and recombines them with the
/// folding scalar `beta`: the result has the coefficients `g + beta * h`,
/// where `g` holds the even positions, `h` the odd ones, and the shorter
/// side is padded with trailing zeros.  The coefficient count always halves,
/// rounded up.
pub fn fold_polynomial<const M: u64>(poly: &Polynomial<M>, beta: &Fe<M>) -> (r: Polynomial<M>)
    requires
        M >= 2,
    ensures
        r@ == fold_spec(M as int, poly@, beta.val()),
        r@.len() == (poly@.len() + 1) / 2,
        r.wf(),
{
    let coef = poly.coefficients();
    let n = coef.len();
    let half = n / 2 + n % 2;
    let ghost target = fold_spec(M as int, poly@, beta.val());
    let mut folded: Vec<Fe<M>> = Vec::new();
    let mut i: usize = 0;
    while i < half
        invariant
            M >= 2,
            i <= half,
            n == coef@.len(),
            half == n / 2 + n % 2,
            vals(coef@) == poly@,
            target == fold_spec(M as int, poly@, beta.val()),
            folded@.len() == i,
            forall|j: int| 0 <= j < i ==> (#[trigger] folded@[j]).val() == target[j] && folded@[j].wf(),
        decreases half - i,
    {
        proof {
            assert(poly@[2 * i] == coef@[2 * i].val());
        }
        let even = coef[2 * i];
        let v = if 2 * i + 1 < n {
            proof {
                assert(poly@[2 * i + 1] == coef@[2 * i + 1].val());
            }
            even.add(beta.mul(coef[2 * i + 1]))
        } else {
            even.add(Fe::zero())
        };
        folded.push(v);
        i = i + 1;
    }
    let r = Polynomial::new(folded);
    proof {
        assert(r@ =~= target);
    }
    r
}

/// Derives the next evaluation domain: the first half of `input`, each
/// point squared.  The length always halves, rounded down.
pub fn next_domain<const M: u64>(input: &Vec<Fe<M>>) -> (r: Vec<Fe<M>>)
    requires
        M >= 2,
    ensures
        vals(r@) == next_domain_spec(M as int, vals(input@)),
        r@.len() == input@.len() / 2,
        reduced(M as int, vals(r@)),
{
    let length = input.len() / 2;
    let ghost target = next_domain_spec(M as int, vals(input@));
    let mut ret: Vec<Fe<M>> = Vec::new();
    let mut i: usize = 0;
    while i < length
        invariant
            M >= 2,
            i <= length,
            length == input@.len() / 2,
            target == next_domain_spec(M as int, vals(input@)),
            ret@.len() == i,
            forall|j: int| 0 <= j < i ==> (#[trigger] ret@[j]).val() == target[j] && ret@[j].wf(),
        decreases length - i,
    {
        let v = input[i];
        proof {
            assert(vals(input@)[i as int] == input@[i as int].val());
        }
        ret.push(v.mul(v));
        i = i + 1;
    }
    proof {
        assert(vals(ret@) =~= target);
        assert forall|j: int| 0 <= j < vals(ret@).len() implies 0 <= #[trigger] vals(ret@)[j]
            < M as int by {
            assert(vals(ret@)[j] == ret@[j].val());
        }
    }
    ret
}

/// Evaluates `poly` at every point of `domain`, in domain order.  The
/// domain handed in is the already-folded next domain, so every point is
/// used.
pub fn next_layer<const M: u64>(poly: &Polynomial<M>, domain: &Vec<Fe<M>>) -> (r: Vec<Fe<M>>)
    requires
        M >= 2,
    ensures
        vals(r@) == eval_table_spec(M as int, poly@, vals(domain@)),
        r@.len() == domain@.len(),
        forall|i: int|
            0 <= i < domain@.len() ==> vals(r@)[i] == poly_eval(
                M as int,
                poly@,
                vals(domain@)[i],
            ),
{
    let ghost target = eval_table_spec(M as int, poly@, vals(domain@));
    let mut ret: Vec<Fe<M>> = Vec::new();
    let mut i: usize = 0;
    while i < domain.len()
        invariant
            M >= 2,
            i <= domain@.len(),
            target == eval_table_spec(M as int, poly@, vals(domain@)),
            ret@.len() == i,
            forall|j: int| 0 <= j < i ==> (#[trigger] ret@[j]).val() == target[j],
        decreases domain@.len() - i,
    {
        proof {
            assert(vals(domain@)[i as int] == domain@[i as int].val());
        }
        ret.push(poly.evaluate(&domain[i]));
        i = i + 1;
    }
    proof {
        assert(vals(ret@) =~= target);
        assert forall|i: int| 0 <= i < domain@.len() implies vals(ret@)[i] == poly_eval(
            M as int,
            poly@,
            vals(domain@)[i],
        ) by {
            assert(target[i] == poly_eval(M as int, poly@, vals(domain@)[i]));
        }
    }
    ret
}

/// One full FRI layer transition: exactly the composition of the three
/// primitives, never more or less.  Returns the folded polynomial, the next
/// domain, and the evaluations of the folded polynomial over the next
/// domain.
pub fn next_fri_layer<const M: u64>(
    poly: &Polynomial<M>,
    domain: &Vec<Fe<M>>,
    beta: &Fe<M>,
) -> (r: (Polynomial<M>, Vec<Fe<M>>, Vec<Fe<M>>))
    requires
        M >= 2,
    ensures
        r.0@ == fold_spec(M as int, poly@, beta.val()),
        vals(r.1@) == next_domain_spec(M as int, vals(domain@)),
        vals(r.2@) == eval_table_spec(M as int, r.0@, vals(r.1@)),
{
    let ret_poly = fold_polynomial(poly, beta);
    let ret_next_domain = next_domain(domain);
    let ret_evaluation = next_layer(&ret_poly, &ret_next_domain);
    (ret_poly, ret_next_domain, ret_evaluation)
}

/// Folding with the zero scalar keeps exactly the even-position
/// coefficients: the odd side is multiplied away and the reduced even
/// coefficients pass through unchanged.
pub proof fn lemma_fold_zero_beta(m: int, p: Seq<int>)
    requires
        m >= 2,
        reduced(m, p),
    ensures
        fold_spec(m, p, 0) == even_part(p),
{
    assert forall|i: int| 0 <= i < (p.len() + 1) / 2 implies fold_spec(m, p, 0)[i] == p[2 * i] by {
        assert(0 <= p[2 * i] < m);
        lemma_small_mod(p[2 * i] as nat, m as nat);
        if 2 * i + 1 < p.len() {
            assert(fe_mul(m, 0, p[2 * i + 1]) == 0) by {
                assert(0 * p[2 * i + 1] == 0);
                lemma_small_mod(0, m as nat);
            }
        }
        assert(fe_add(m, p[2 * i], 0) == p[2 * i]);
    }
    assert(fold_spec(m, p, 0) =~= even_part(p));
}

/// The fold is a function of the coefficients and the scalar alone: two
/// results of folding the same polynomial with the same scalar are the same
/// coefficient sequence.
pub proof fn lemma_fold_polynomial_deterministic(
    m: int,
    p: Seq<int>,
    beta: int,
    q1: Seq<int>,
    q2: Seq<int>,
)
    requires
        q1 == fold_spec(m, p, beta),
        q2 == fold_spec(m, p, beta),
    ensures
        q1 == q2,
{
}

/// The next domain is a function of the current domain alone.
pub proof fn lemma_next_domain_deterministic(m: int, d: Seq<int>, d1: Seq<int>, d2: Seq<int>)
    requires
        d1 == next_domain_spec(m, d),
        d2 == next_domain_spec(m, d),
    ensures
        d1 == d2,
{
}

/// The evaluation table is a function of the coefficients and the domain
/// alone.
pub proof fn lemma_next_layer_deterministic(
    m: int,
    p: Seq<int>,
    d: Seq<int>,
    e1: Seq<int>,
    e2: Seq<int>,
)
    requires
        e1 == eval_table_spec(m, p, d),
        e2 == eval_table_spec(m, p, d),
    ensures
        e1 == e2,
{
}

} // verus!

