//! The evaluation domain: the multiplicative subgroup of the scalar field
//! whose order is the smallest power of two that is at least the number of
//! shares. Its first elements are the points at which shares are dealt.

use vstd::prelude::*;
use vstd::arithmetic::power2::{lemma2_to64, lemma_pow2_strictly_increases, lemma_pow2_unfold, pow2};
use crate::curve::{g1_views, G1Point};
use crate::scalar::{fmul, scalar_views, Scalar};
use ark_bls12_381::Fr;
use ark_bls12_381::G1Affine;
use ark_bls12_381::G1Projective;
use ark_poly::EvaluationDomain;
use ark_poly::GeneralEvaluationDomain;
use ark_serialize::CanonicalDeserialize;
use ark_serialize::CanonicalSerialize;

verus! {

/// The first of `p`, `2p`, `4p`, ... that is at least `n`.
pub open spec fn doubled_up_to(n: nat, p: nat) -> nat
    decreases
            (if 0 < p < n {
                n - p
            } else {
                0
            }),
{
    if 0 < p < n {
        doubled_up_to(n, 2 * p)
    } else {
        p
    }
}

/// The order of the domain for `n` shares: the smallest power of two that
/// is at least `n`.
pub open spec fn domain_size(n: nat) -> nat {
    doubled_up_to(n, 1)
}

/// Whether a domain of this order exists: a power of two up to `2^32`.
pub open spec fn domain_order(size: nat) -> bool {
    exists|k: nat| k <= 32 && size == pow2(k)
}

/// The value of the generator of the domain of order `size`, as
/// `GeneralEvaluationDomain::new(size)` chooses it.
pub uninterp spec fn domain_root(size: nat) -> nat;

/// The encodings of the evaluations, at the elements of the domain of order
/// `size` in their order, of the polynomial whose coefficients are the
/// points that `coeffs` encodes.
pub uninterp spec fn g1_fft(coeffs: Seq<Seq<u8>>, size: nat) -> Seq<Seq<u8>>;

/// The `i`-th element of the domain of order `size`: the generator to the `i`.
pub open spec fn domain_point(size: nat, i: nat) -> nat
    decreases i,
{
    if i == 0 {
        1
    } else {
        fmul(domain_point(size, (i - 1) as nat), domain_root(size))
    }
}

/// The first `n` elements of the domain of order `size`.
pub open spec fn domain_points(size: nat, n: nat) -> Seq<nat> {
    Seq::new(n, |i: int| domain_point(size, i as nat))
}

/// A domain has at most `2^32` elements.
pub proof fn lemma_domain_order_bound(size: nat)
    requires
        domain_order(size),
    ensures
        1 <= size <= 0x1_0000_0000,
{
    let k = choose|k: nat| k <= 32 && size == pow2(k);
    lemma2_to64();
    vstd::arithmetic::power2::lemma_pow2_pos(k);
    if k < 32 {
        lemma_pow2_strictly_increases(k, 32);
    }
}

/// The order of the domain for `n` shares.
pub fn domain_size_for(n: u32) -> (size: u64)
    ensures
        size == domain_size(n as nat),
        domain_order(size as nat),
        size >= n,
        1 <= size <= 0x1_0000_0000,
{
    let mut size: u64 = 1;
    let mut k: u32 = 0;
    proof {
        lemma2_to64();
    }
    while size < n as u64
        invariant
            k <= 32,
            size == pow2(k as nat),
            1 <= size <= 0x1_0000_0000,
            doubled_up_to(n as nat, size as nat) == domain_size(n as nat),
        decreases 32 - k,
    {
        proof {
            lemma2_to64();
            if k == 32 {
                assert(false);
            }
            lemma_pow2_unfold((k + 1) as nat);
            if k + 1 < 32 {
                lemma_pow2_strictly_increases((k + 1) as nat, 32);
            }
        }
        size = size * 2;
        k = k + 1;
    }
    size
}

/// The order of the domain for `n` shares, where the field has a domain
/// that large and the machine can index it.
pub fn domain_size_for_len(n: usize) -> (out: Option<usize>)
    ensures
        match out {
            Some(size) => n <= u32::MAX && size == domain_size(n as nat) && domain_order(size as nat)
                && size >= n,
            None => n > u32::MAX || domain_size(n as nat) > usize::MAX,
        },
{
    if n > u32::MAX as usize {
        return None;
    }
    let size = domain_size_for(n as u32);
    if size > usize::MAX as u64 {
        return None;
    }
    Some(size as usize)
}

/// The generator of the domain of order `size`.
pub fn domain_generator(size: usize) -> (out: Scalar)
    requires
        domain_order(size as nat),
    ensures
        out@ == domain_root(size as nat),
{
    domain_group_gen(size)
}

/// The first `n` elements of the domain of order `size`, in order:
/// one, the generator, its square, and so on.
pub fn domain_elements(size: usize, n: usize) -> (out: Vec<Scalar>)
    requires
        domain_order(size as nat),
    ensures
        scalar_views(out@) == domain_points(size as nat, n as nat),
        out@.len() == n,
{
    let generator = domain_generator(size);
    let mut out: Vec<Scalar> = Vec::new();
    let mut current = Scalar::one();
    let mut i: usize = 0;
    while i < n
        invariant
            i <= n,
            out@.len() == i,
            generator@ == domain_root(size as nat),
            current@ == domain_point(size as nat, i as nat),
            scalar_views(out@) == domain_points(size as nat, i as nat),
        decreases n - i,
    {
        let next = current.mul(&generator);
        let ghost before = out@;
        out.push(current);
        assert(scalar_views(out@) =~= domain_points(size as nat, (i + 1) as nat)) by {
            assert(scalar_views(before) == domain_points(size as nat, i as nat));
            assert forall|j: int| 0 <= j < i + 1 implies scalar_views(out@)[j] == domain_points(
                size as nat,
                (i + 1) as nat,
            )[j] by {
                if j < i {
                    assert(out@[j] == before[j]);
                    assert(scalar_views(before)[j] == before[j]@);
                }
            }
        }
        current = next;
        i += 1;
    }
    out
}

/// The evaluations of the polynomial with the coefficients `coeffs` at every
/// element of the domain of order `size`.
pub fn evaluate_over_domain(coeffs: &Vec<G1Point>, size: usize) -> (out: Vec<G1Point>)
    requires
        domain_order(size as nat),
    ensures
        g1_views(out@) == g1_fft(g1_views(coeffs@), size as nat),
        out@.len() == size,
{
    g1_domain_fft(coeffs, size)
}

/// `GeneralEvaluationDomain::<Fr>::new(size)` and `group_gen`: for a power
/// of two up to `2^32` the domain exists and has exactly that order; its
/// generator depends on the order alone.
#[verifier::external_body]
fn domain_group_gen(size: usize) -> (out: Scalar)
    requires
        domain_order(size as nat),
    ensures
        out@ == domain_root(size as nat),
        crate::scalar::scalar_encoding(out.encoding()),
{
    let domain = GeneralEvaluationDomain::<Fr>::new(size).unwrap();
    let mut bytes = Vec::new();
    domain.group_gen().serialize_compressed(&mut bytes).unwrap();
    Scalar { bytes }
}

/// `EvaluationDomain::fft_in_place` on the domain of order `size`, applied to
/// the points as projective coefficients: the vector is cut or padded with
/// the identity to `size` entries and replaced by the evaluations at the
/// domain's elements, so there are `size` results, which depend on the
/// coefficients and the order alone.
#[verifier::external_body]
fn g1_domain_fft(coeffs: &Vec<G1Point>, size: usize) -> (out: Vec<G1Point>)
    requires
        domain_order(size as nat),
    ensures
        g1_views(out@) == g1_fft(g1_views(coeffs@), size as nat),
        out@.len() == size,
        forall|i: int| 0 <= i < out@.len() ==> crate::curve::g1_encoding(#[trigger] g1_views(out@)[i]),
{
    let domain = GeneralEvaluationDomain::<Fr>::new(size).unwrap();
    let mut points: Vec<G1Projective> = coeffs.iter().map(
        |c| G1Affine::deserialize_compressed(&c.bytes[..]).unwrap().into(),
    ).collect();
    domain.fft_in_place(&mut points);
    points.iter().map(
        |p| {
            let mut bytes = Vec::new();
            G1Affine::from(*p).serialize_compressed(&mut bytes).unwrap();
            G1Point { bytes }
        },
    ).collect()
}

} // verus!
