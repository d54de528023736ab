//! Polynomials over the scalar field: evaluation, the Lagrange basis at a
//! point, and random polynomials with a prescribed constant term or root.
//!
//! A polynomial is the vector of its coefficients, constant term first.

use vstd::prelude::*;
use crate::scalar::{fadd, finv, fmul, fsub, modulus, scalar_views, Scalar};
use rand::rngs::StdRng;

verus! {

/// The value of the polynomial with coefficients `coeffs` at `x`.
pub open spec fn poly_eval(coeffs: Seq<nat>, x: nat) -> nat
    decreases coeffs.len(),
{
    if coeffs.len() == 0 {
        0
    } else {
        fadd(coeffs[0], fmul(x, poly_eval(coeffs.drop_first(), x)))
    }
}

/// The factor that the point `xs[m]` contributes to the basis polynomial of
/// `xs[j]` at `x`: `(xs[m] - x) / (xs[m] - xs[j])`, and one where the two
/// points coincide.
pub open spec fn lagrange_factor(xs: Seq<nat>, j: int, m: int, x: nat) -> nat {
    if xs[m] != xs[j] {
        fmul(fsub(xs[m], x), finv(fsub(xs[m], xs[j])))
    } else {
        1
    }
}

/// The product of the factors of the first `n` points.
pub open spec fn lagrange_product(xs: Seq<nat>, j: int, x: nat, n: nat) -> nat
    decreases n,
{
    if n == 0 {
        1
    } else {
        fmul(lagrange_product(xs, j, x, (n - 1) as nat), lagrange_factor(xs, j, n - 1, x))
    }
}

/// The value at `x` of the Lagrange basis polynomial of `xs[j]` over the
/// points `xs`.
pub open spec fn lagrange_coefficient(xs: Seq<nat>, j: int, x: nat) -> nat {
    lagrange_product(xs, j, x, xs.len())
}

/// The Lagrange basis over `xs` at `x`, one coefficient for each point.
pub open spec fn lagrange_basis(xs: Seq<nat>, x: nat) -> Seq<nat> {
    Seq::new(xs.len(), |j: int| lagrange_coefficient(xs, j, x))
}

/// The difference of two distinct field elements is not zero.
pub proof fn lemma_fsub_nonzero(a: nat, b: nat)
    requires
        a < modulus(),
        b < modulus(),
        a != b,
    ensures
        fsub(a, b) != 0,
        fsub(a, b) < modulus(),
{
}

/// Evaluates a polynomial at `x`.
pub fn evaluate_polynomial(coeffs: &[Scalar], x: &Scalar) -> (out: Scalar)
    ensures
        out@ == poly_eval(scalar_views(coeffs@), x@),
{
    let ghost views = scalar_views(coeffs@);
    let mut acc = Scalar::zero();
    let mut i: usize = coeffs.len();
    assert(views.skip(i as int) =~= Seq::<nat>::empty());
    while i > 0
        invariant
            i <= coeffs@.len(),
            views == scalar_views(coeffs@),
            acc@ == poly_eval(views.skip(i as int), x@),
        decreases i,
    {
        i -= 1;
        let t = x.mul(&acc);
        proof {
            assert(views.skip(i as int).drop_first() =~= views.skip(i + 1));
            assert(views.skip(i as int)[0] == coeffs@[i as int]@);
        }
        acc = coeffs[i].add(&t);
    }
    assert(views.skip(0) =~= views);
    acc
}

/// The Lagrange coefficients at `x_i` of the points `shares_x`, by the
/// product formula. Points that coincide with the one whose coefficient is
/// computed contribute nothing.
pub fn lagrange_basis_at(shares_x: &[Scalar], x_i: &Scalar) -> (out: Vec<Scalar>)
    ensures
        scalar_views(out@) == lagrange_basis(scalar_views(shares_x@), x_i@),
        out@.len() == shares_x@.len(),
{
    let ghost xs = scalar_views(shares_x@);
    let mut out: Vec<Scalar> = Vec::new();
    let mut j: usize = 0;
    while j < shares_x.len()
        invariant
            j <= shares_x@.len(),
            xs == scalar_views(shares_x@),
            out@.len() == j,
            forall|k: int| 0 <= k < j ==> (#[trigger] out@[k])@ == lagrange_coefficient(xs, k, x_i@),
        decreases shares_x@.len() - j,
    {
        let x_j = &shares_x[j];
        let mut prod = Scalar::one();
        let mut m: usize = 0;
        while m < shares_x.len()
            invariant
                m <= shares_x@.len(),
                j < shares_x@.len(),
                xs == scalar_views(shares_x@),
                *x_j == shares_x@[j as int],
                prod@ == lagrange_product(xs, j as int, x_i@, m as nat),
            decreases shares_x@.len() - m,
        {
            let x_m = &shares_x[m];
            prod.canonical();
            x_j.canonical();
            x_m.canonical();
            if !x_j.equals(x_m) {
                let numerator = x_m.sub(x_i);
                let denominator = x_m.sub(x_j);
                proof {
                    lemma_fsub_nonzero(x_m@, x_j@);
                }
                match denominator.inverse() {
                    Some(inverse) => {
                        let factor = numerator.mul(&inverse);
                        prod = prod.mul(&factor);
                    },
                    None => {
                        assert(false);
                    },
                }
            } else {
                assert(fmul(prod@, 1) == prod@) by (nonlinear_arith)
                    requires
                        prod@ < modulus(),
                        modulus() > 0,
                ;
            }
            m += 1;
        }
        out.push(prod);
        j += 1;
    }
    assert(scalar_views(out@) =~= lagrange_basis(xs, x_i@));
    out
}

/// The Lagrange coefficients at zero of the points `domain`: the weights
/// with which shares dealt at those points combine to the secret.
pub fn prepare_combine_simple(domain: &[Scalar]) -> (out: Vec<Scalar>)
    ensures
        scalar_views(out@) == lagrange_basis(scalar_views(domain@), 0),
        out@.len() == domain@.len(),
{
    let zero = Scalar::zero();
    lagrange_basis_at(domain, &zero)
}

/// `degree + 1` coefficients drawn from `rng`.
pub fn random_polynomial(degree: u32, rng: &mut StdRng) -> (out: Vec<Scalar>)
    ensures
        out@.len() == degree + 1,
{
    let mut out: Vec<Scalar> = Vec::new();
    let mut i: u64 = 0;
    while i <= degree as u64
        invariant
            i <= degree + 1,
            out@.len() == i,
        decreases degree + 1 - i,
    {
        out.push(Scalar::random(rng));
        i += 1;
    }
    out
}

/// The polynomial `coeffs` with its constant term replaced by `s`.
pub fn with_constant_term(coeffs: Vec<Scalar>, s: &Scalar) -> (out: Vec<Scalar>)
    requires
        coeffs@.len() > 0,
    ensures
        scalar_views(out@) == scalar_views(coeffs@).update(0, s@),
{
    let mut out = coeffs;
    out.set(0, s.clone());
    assert(scalar_views(out@) =~= scalar_views(coeffs@).update(0, s@));
    out
}

/// The polynomial `coeffs` with its constant term replaced by the one value
/// that makes `root` a root.
pub fn with_root(coeffs: Vec<Scalar>, root: &Scalar) -> (out: Vec<Scalar>)
    requires
        coeffs@.len() > 0,
    ensures
        out@.len() == coeffs@.len(),
        scalar_views(out@).drop_first() == scalar_views(coeffs@).drop_first(),
        poly_eval(scalar_views(out@), root@) == 0,
{
    let zero = Scalar::zero();
    let zeroed = with_constant_term(coeffs, &zero);
    let value = evaluate_polynomial(zeroed.as_slice(), root);
    let constant = zero.sub(&value);
    value.canonical();
    let ghost tail = scalar_views(zeroed@).drop_first();
    let out = with_constant_term(zeroed, &constant);
    proof {
        assert(scalar_views(out@).drop_first() =~= tail);
        assert(tail =~= scalar_views(coeffs@).drop_first());
        let rest = fmul(root@, poly_eval(tail, root@));
        assert(value@ == fadd(0, rest));
        assert(poly_eval(scalar_views(out@), root@) == fadd(constant@, rest));
    }
    out
}

/// A random polynomial of the given degree with the constant term `s`.
pub fn random_polynomial_with_secret(s: &Scalar, degree: u32, rng: &mut StdRng) -> (out: Vec<Scalar>)
    ensures
        out@.len() == degree + 1,
        out@[0]@ == s@,
{
    let drawn = random_polynomial(degree, rng);
    let out = with_constant_term(drawn, s);
    assert(scalar_views(out@).len() == out@.len());
    assert(scalar_views(out@)[0] == out@[0]@);
    out
}

/// A random polynomial of the given degree that vanishes at `root`.
pub fn make_random_polynomial_with_root(degree: u32, root: &Scalar, rng: &mut StdRng) -> (out: Vec<Scalar>)
    ensures
        out@.len() == degree + 1,
        poly_eval(scalar_views(out@), root@) == 0,
{
    let drawn = random_polynomial(degree, rng);
    with_root(drawn, root)
}

/// Overwrites every coefficient with zeros and drops the polynomial.
pub fn zeroize_polynomial(coeffs: Vec<Scalar>) {
    let mut coeffs = coeffs;
    while coeffs.len() > 0
        decreases coeffs@.len(),
    {
        match coeffs.pop() {
            Some(c) => c.zeroize(),
            None => {},
        }
    }
}

} // verus!
