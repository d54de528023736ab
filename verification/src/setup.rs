//! A setup dealt by one party that knows the whole secret. It stands in for
//! a key generation where only the decryption side is exercised: the dealer
//! shares a polynomial, blinds every share with a key pair it makes for the
//! participant, and hands every participant its context.

use vstd::prelude::*;
use crate::combine::{share_combine_simple, simple_share_values, weighted_product, SharedSecret};
use crate::context::{
    PrivateDecryptionContextFast,
    PrivateDecryptionContextSimple,
    PublicDecryptionContextFast,
    PublicDecryptionContextSimple,
    SetupParams,
};
use crate::curve::{g1_generator, g1_scaled, g2_generator, g2_scaled, G1Point, G2Point};
use crate::decryption::DecryptionShareSimple;
use crate::domain::{domain_elements, domain_order, domain_point, domain_size, domain_size_for_len};
use crate::error::Error;
use crate::key_share::{BlindedKeyShare, DkgPublicKey, PrivateKeyShare, ShareCommitment};
use crate::poly::{
    evaluate_polynomial,
    lagrange_basis,
    poly_eval,
    prepare_combine_simple,
    random_polynomial,
    zeroize_polynomial,
};
use crate::scalar::{finv, fmul, fsub, scalar_views, Scalar};
use crate::validator::PublicKey;
use rand::rngs::StdRng;

verus! {

/// What a dealt setup gives: the group public key, the group private key,
/// and the context of every participant.
pub struct DealtSetup {
    pub public_key: DkgPublicKey,
    pub private_key: PrivateKeyShare,
    pub contexts: Vec<PrivateDecryptionContextSimple>,
}

/// Whether `context` is what everyone knows of the participant at the
/// domain point `point`, whose share is the value `value` of the dealt
/// polynomial and whose blinding factor is `b`.
pub open spec fn public_context_of(
    context: PublicDecryptionContextSimple,
    point: nat,
    value: nat,
    b: nat,
) -> bool {
    &&& context.domain@ == point
    &&& context.share_commitment@ == g1_scaled(g1_generator(), value)
    &&& context.blinded_key_share.blinded_key_share@ == g2_scaled(
        g2_scaled(g2_generator(), value),
        b,
    )
    &&& context.blinded_key_share.validator_public_key@ == g2_scaled(g2_generator(), b)
    &&& context.h@ == g2_generator()
    &&& context.validator_public_key@ == g2_scaled(g2_generator(), b)
}

/// Whether `setup` is the setup that deals the polynomial `poly` to
/// `shares` participants with the blinding factors `blinding`, on the
/// domain of order `size`.
pub open spec fn deals_setup(
    setup: DealtSetup,
    poly: Seq<nat>,
    blinding: Seq<nat>,
    shares: nat,
    size: nat,
) -> bool {
    &&& setup.public_key@ == g1_scaled(g1_generator(), poly[0])
    &&& setup.private_key@ == g2_scaled(g2_generator(), poly[0])
    &&& setup.contexts@.len() == shares
    &&& forall|i: int|
        0 <= i < shares ==> {
            let context = #[trigger] setup.contexts@[i];
            let value = poly_eval(poly, domain_point(size, i as nat));
            &&& context.index == i
            &&& context.setup_params.b@ == blinding[i]
            &&& context.setup_params.b_inv@ == finv(blinding[i])
            &&& fmul(blinding[i], context.setup_params.b_inv@) == 1
            &&& context.setup_params.g@ == g1_generator()
            &&& context.setup_params.h@ == g2_generator()
            &&& context.private_key_share@ == g2_scaled(g2_generator(), value)
            &&& context.public_decryption_contexts@.len() == shares
            &&& forall|j: int|
                0 <= j < shares ==> public_context_of(
                    #[trigger] context.public_decryption_contexts@[j],
                    domain_point(size, j as nat),
                    poly_eval(poly, domain_point(size, j as nat)),
                    blinding[j],
                )
        }
}

/// Whether every blinding factor has an inverse.
pub open spec fn all_invertible(blinding: Seq<nat>) -> bool {
    forall|i: int| 0 <= i < blinding.len() ==> #[trigger] blinding[i] != 0
}

/// Whether two public contexts hold the same values.
pub open spec fn same_context(a: PublicDecryptionContextSimple, b: PublicDecryptionContextSimple) -> bool {
    &&& a.domain@ == b.domain@
    &&& a.share_commitment@ == b.share_commitment@
    &&& a.blinded_key_share.blinded_key_share@ == b.blinded_key_share.blinded_key_share@
    &&& a.blinded_key_share.validator_public_key@ == b.blinded_key_share.validator_public_key@
    &&& a.h@ == b.h@
    &&& a.validator_public_key@ == b.validator_public_key@
}

fn clone_public_contexts(contexts: &Vec<PublicDecryptionContextSimple>) -> (out: Vec<
    PublicDecryptionContextSimple,
>)
    ensures
        out@.len() == contexts@.len(),
        forall|j: int| 0 <= j < contexts@.len() ==> same_context(#[trigger] out@[j], contexts@[j]),
{
    let mut out: Vec<PublicDecryptionContextSimple> = Vec::new();
    let mut j: usize = 0;
    while j < contexts.len()
        invariant
            j <= contexts@.len(),
            out@.len() == j,
            forall|k: int| 0 <= k < j ==> same_context(#[trigger] out@[k], contexts@[k]),
        decreases contexts@.len() - j,
    {
        out.push(contexts[j].clone());
        j += 1;
    }
    out
}

/// Deals the polynomial `poly` to as many participants as there are
/// blinding factors: `ArithmeticError` where a blinding factor is zero,
/// `InvalidDkgParameters` where the field has no domain for that many.
pub fn deal_setup(poly: &[Scalar], blinding: &[Scalar]) -> (out: Result<DealtSetup, Error>)
    requires
        poly@.len() > 0,
    ensures
        match out {
            Ok(setup) => {
                &&& all_invertible(scalar_views(blinding@))
                &&& blinding@.len() <= u32::MAX
                &&& domain_size(blinding@.len()) <= usize::MAX
                &&& deals_setup(
                    setup,
                    scalar_views(poly@),
                    scalar_views(blinding@),
                    blinding@.len(),
                    domain_size(blinding@.len()),
                )
            },
            Err(e) => if blinding@.len() > u32::MAX || domain_size(blinding@.len()) > usize::MAX {
                e == Error::InvalidDkgParameters(
                    crate::messages::clamped(blinding@.len()),
                    crate::messages::clamped(poly@.len()),
                )
            } else {
                e == Error::ArithmeticError && !all_invertible(scalar_views(blinding@))
            },
        },
{
    let shares = blinding.len();
    let size = match domain_size_for_len(shares) {
        Some(size) => size,
        None => {
            let a = if shares > u32::MAX as usize {
                u32::MAX
            } else {
                shares as u32
            };
            let b = if poly.len() > u32::MAX as usize {
                u32::MAX
            } else {
                poly.len() as u32
            };
            return Err(Error::InvalidDkgParameters(a, b));
        },
    };
    let ghost values = scalar_views(poly@);
    let ghost factors = scalar_views(blinding@);
    let points = domain_elements(size, shares);
    let g = G1Point::generator();
    let h = G2Point::generator();
    let mut public_contexts: Vec<PublicDecryptionContextSimple> = Vec::new();
    let mut private_shares: Vec<PrivateKeyShare> = Vec::new();
    let mut inverses: Vec<Scalar> = Vec::new();
    let mut i: usize = 0;
    while i < shares
        invariant
            i <= shares == blinding@.len(),
            shares <= u32::MAX,
            size == domain_size(shares as nat),
            points@.len() == shares,
            scalar_views(points@) == crate::domain::domain_points(size as nat, shares as nat),
            values == scalar_views(poly@),
            factors == scalar_views(blinding@),
            g@ == g1_generator(),
            h@ == g2_generator(),
            public_contexts@.len() == i,
            private_shares@.len() == i,
            inverses@.len() == i,
            forall|k: int| 0 <= k < i ==> #[trigger] factors[k] != 0,
            forall|k: int|
                0 <= k < i ==> (#[trigger] inverses@[k])@ == finv(factors[k]) && fmul(
                    factors[k],
                    inverses@[k]@,
                ) == 1,
            forall|k: int|
                0 <= k < i ==> (#[trigger] private_shares@[k])@ == g2_scaled(
                    g2_generator(),
                    poly_eval(values, domain_point(size as nat, k as nat)),
                ),
            forall|k: int|
                0 <= k < i ==> public_context_of(
                    #[trigger] public_contexts@[k],
                    domain_point(size as nat, k as nat),
                    poly_eval(values, domain_point(size as nat, k as nat)),
                    factors[k],
                ),
        decreases shares - i,
    {
        assert(scalar_views(points@)[i as int] == points@[i as int]@);
        assert(factors[i as int] == blinding@[i as int]@);
        let eval = evaluate_polynomial(poly, &points[i]);
        let inverse = match blinding[i].inverse() {
            Some(inverse) => inverse,
            None => {
                assert(!all_invertible(factors));
                return Err(Error::ArithmeticError);
            },
        };
        let share_commitment = g.mul(&eval);
        let private_share = h.mul(&eval);
        eval.zeroize();
        let validator_public_key = h.mul(&blinding[i]);
        let blinded_key_share = BlindedKeyShare {
            validator_public_key: validator_public_key.clone(),
            blinded_key_share: private_share.mul(&blinding[i]),
        };
        public_contexts.push(
            PublicDecryptionContextSimple {
                domain: points[i].clone(),
                share_commitment: ShareCommitment(share_commitment),
                blinded_key_share,
                h: h.clone(),
                validator_public_key: PublicKey { encryption_key: validator_public_key },
            },
        );
        private_shares.push(PrivateKeyShare(private_share));
        inverses.push(inverse);
        i += 1;
    }
    let mut contexts: Vec<PrivateDecryptionContextSimple> = Vec::new();
    let mut i: usize = 0;
    while i < shares
        invariant
            i <= shares == blinding@.len(),
            values == scalar_views(poly@),
            factors == scalar_views(blinding@),
            g@ == g1_generator(),
            h@ == g2_generator(),
            public_contexts@.len() == shares,
            private_shares@.len() == shares,
            inverses@.len() == shares,
            contexts@.len() == i,
            forall|k: int|
                0 <= k < shares ==> (#[trigger] inverses@[k])@ == finv(factors[k]) && fmul(
                    factors[k],
                    inverses@[k]@,
                ) == 1,
            forall|k: int|
                0 <= k < shares ==> (#[trigger] private_shares@[k])@ == g2_scaled(
                    g2_generator(),
                    poly_eval(values, domain_point(size as nat, k as nat)),
                ),
            forall|k: int|
                0 <= k < shares ==> public_context_of(
                    #[trigger] public_contexts@[k],
                    domain_point(size as nat, k as nat),
                    poly_eval(values, domain_point(size as nat, k as nat)),
                    factors[k],
                ),
            forall|k: int|
                0 <= k < i ==> {
                    let context = #[trigger] contexts@[k];
                    let value = poly_eval(values, domain_point(size as nat, k as nat));
                    &&& context.index == k
                    &&& context.setup_params.b@ == factors[k]
                    &&& context.setup_params.b_inv@ == finv(factors[k])
                    &&& fmul(factors[k], context.setup_params.b_inv@) == 1
                    &&& context.setup_params.g@ == g1_generator()
                    &&& context.setup_params.h@ == g2_generator()
                    &&& context.private_key_share@ == g2_scaled(g2_generator(), value)
                    &&& context.public_decryption_contexts@.len() == shares
                    &&& forall|j: int|
                        0 <= j < shares ==> public_context_of(
                            #[trigger] context.public_decryption_contexts@[j],
                            domain_point(size as nat, j as nat),
                            poly_eval(values, domain_point(size as nat, j as nat)),
                            factors[j],
                        )
                },
        decreases shares - i,
    {
        assert(factors[i as int] == blinding@[i as int]@);
        let copies = clone_public_contexts(&public_contexts);
        assert forall|j: int| 0 <= j < shares implies public_context_of(
            #[trigger] copies@[j],
            domain_point(size as nat, j as nat),
            poly_eval(values, domain_point(size as nat, j as nat)),
            factors[j],
        ) by {
            assert(public_context_of(
                public_contexts@[j],
                domain_point(size as nat, j as nat),
                poly_eval(values, domain_point(size as nat, j as nat)),
                factors[j],
            ));
            assert(same_context(copies@[j], public_contexts@[j]));
        }
        contexts.push(
            PrivateDecryptionContextSimple {
                index: i,
                setup_params: SetupParams {
                    b: blinding[i].clone(),
                    b_inv: inverses[i].clone(),
                    g: g.clone(),
                    h: h.clone(),
                },
                private_key_share: private_shares[i].clone(),
                public_decryption_contexts: copies,
            },
        );
        i += 1;
    }
    assert(values[0] == poly@[0]@);
    let public_key = DkgPublicKey(g.mul(&poly[0]));
    let private_key = PrivateKeyShare(h.mul(&poly[0]));
    Ok(DealtSetup { public_key, private_key, contexts })
}

/// Whether `setup` deals some polynomial of `threshold` coefficients with
/// some blinding factors.
pub open spec fn deals_some_setup(
    setup: DealtSetup,
    poly: Seq<nat>,
    blinding: Seq<nat>,
    shares: nat,
    threshold: nat,
) -> bool {
    &&& poly.len() == threshold
    &&& blinding.len() == shares
    &&& deals_setup(setup, poly, blinding, shares, domain_size(shares))
}

/// A setup for `shares_num` participants of which `threshold` decrypt,
/// with a polynomial and blinding factors drawn from `rng`.
pub fn setup_simple(shares_num: usize, threshold: usize, rng: &mut StdRng) -> (out: Result<
    DealtSetup,
    Error,
>)
    requires
        0 < threshold <= u32::MAX,
    ensures
        out matches Ok(setup) ==> exists|poly: Seq<nat>, blinding: Seq<nat>| #[trigger]
            deals_some_setup(setup, poly, blinding, shares_num as nat, threshold as nat),
        out matches Err(e) ==> e == Error::ArithmeticError || e is InvalidDkgParameters,
{
    let threshold_poly = random_polynomial((threshold - 1) as u32, rng);
    let mut blinding: Vec<Scalar> = Vec::new();
    let mut i: usize = 0;
    while i < shares_num
        invariant
            i <= shares_num,
            blinding@.len() == i,
        decreases shares_num - i,
    {
        blinding.push(Scalar::random(rng));
        i += 1;
    }
    let out = deal_setup(threshold_poly.as_slice(), blinding.as_slice());
    proof {
        assert(scalar_views(threshold_poly@).len() == threshold_poly@.len());
        assert(scalar_views(blinding@).len() == blinding@.len());
        if out is Ok {
            assert(deals_some_setup(
                out->Ok_0,
                scalar_views(threshold_poly@),
                scalar_views(blinding@),
                shares_num as nat,
                threshold as nat,
            ));
        }
    }
    zeroize_polynomial(threshold_poly);
    out
}

/// A setup for the precomputed variant: the same as for the simple one.
pub fn setup_precomputed(shares_num: usize, threshold: usize, rng: &mut StdRng) -> (out: Result<
    DealtSetup,
    Error,
>)
    requires
        0 < threshold <= u32::MAX,
    ensures
        out matches Ok(setup) ==> exists|poly: Seq<nat>, blinding: Seq<nat>| #[trigger]
            deals_some_setup(setup, poly, blinding, shares_num as nat, threshold as nat),
        out matches Err(e) ==> e == Error::ArithmeticError || e is InvalidDkgParameters,
{
    setup_simple(shares_num, threshold, rng)
}

/// The domain points of a sequence of public contexts.
pub open spec fn context_points(contexts: Seq<PublicDecryptionContextSimple>) -> Seq<nat> {
    contexts.map_values(|c: PublicDecryptionContextSimple| c.domain@)
}

/// Combines simple shares with the Lagrange coefficients at zero of the
/// contexts' domain points.
pub fn create_shared_secret_simple(
    pub_contexts: &[PublicDecryptionContextSimple],
    decryption_shares: &[DecryptionShareSimple],
) -> (out: SharedSecret)
    ensures
        out@ == weighted_product(
            simple_share_values(decryption_shares@),
            lagrange_basis(context_points(pub_contexts@), 0),
            crate::combine::shorter(decryption_shares@.len(), pub_contexts@.len()),
        ),
{
    let mut domain: Vec<Scalar> = Vec::new();
    let mut i: usize = 0;
    while i < pub_contexts.len()
        invariant
            i <= pub_contexts@.len(),
            domain@.len() == i,
            forall|k: int| 0 <= k < i ==> (#[trigger] domain@[k])@ == pub_contexts@[k].domain@,
        decreases pub_contexts@.len() - i,
    {
        domain.push(pub_contexts[i].domain.clone());
        i += 1;
    }
    assert(scalar_views(domain@) =~= context_points(pub_contexts@));
    let lagrange_coeffs = prepare_combine_simple(domain.as_slice());
    share_combine_simple(decryption_shares, lagrange_coeffs.as_slice())
}

/// What a dealt setup of the fast variant gives: the group public key, the
/// group private key, and the context of every participant.
pub struct DealtFastSetup {
    pub public_key: DkgPublicKey,
    pub private_key: PrivateKeyShare,
    pub contexts: Vec<PrivateDecryptionContextFast>,
}

/// Whether `context` is what everyone knows, in the fast variant, of the
/// participant at the domain point `point`, whose share is the value
/// `value` of the dealt polynomial and whose blinding factor is `b`: the
/// blinded share is multiplied by the negated inverse of the point, and the
/// numerator part is the negated point.
pub open spec fn fast_context_of(context: PublicDecryptionContextFast, point: nat, value: nat, b: nat) -> bool {
    &&& context.domain@ == point
    &&& context.public_key@ == g1_scaled(g1_generator(), value)
    &&& context.blinded_key_share.blinded_key_share@ == g2_scaled(
        g2_scaled(g2_scaled(g2_generator(), value), b),
        fsub(0, finv(point)),
    )
    &&& context.blinded_key_share.validator_public_key@ == g2_scaled(g2_generator(), b)
    &&& context.lagrange_n_0@ == fsub(0, point)
}

/// Whether `setup` is the setup of the fast variant that deals the
/// polynomial `poly` to `shares` participants with the blinding factors
/// `blinding`, on the domain of order `size`.
pub open spec fn deals_fast_setup(
    setup: DealtFastSetup,
    poly: Seq<nat>,
    blinding: Seq<nat>,
    shares: nat,
    size: nat,
) -> bool {
    &&& setup.public_key@ == g1_scaled(g1_generator(), poly[0])
    &&& setup.private_key@ == g2_scaled(g2_generator(), poly[0])
    &&& setup.contexts@.len() == shares
    &&& forall|i: int|
        0 <= i < shares ==> {
            let context = #[trigger] setup.contexts@[i];
            &&& context.index == i
            &&& context.b@ == blinding[i]
            &&& context.b_inv@ == finv(blinding[i])
            &&& fmul(blinding[i], context.b_inv@) == 1
            &&& context.private_key_share@ == g2_scaled(
                g2_generator(),
                poly_eval(poly, domain_point(size, i as nat)),
            )
            &&& context.public_decryption_contexts@.len() == shares
            &&& forall|j: int|
                0 <= j < shares ==> fast_context_of(
                    #[trigger] context.public_decryption_contexts@[j],
                    domain_point(size, j as nat),
                    poly_eval(poly, domain_point(size, j as nat)),
                    blinding[j],
                )
        }
}

/// Whether two public contexts of the fast variant hold the same values.
pub open spec fn same_fast_context(a: PublicDecryptionContextFast, b: PublicDecryptionContextFast) -> bool {
    &&& a.domain@ == b.domain@
    &&& a.public_key@ == b.public_key@
    &&& a.blinded_key_share.blinded_key_share@ == b.blinded_key_share.blinded_key_share@
    &&& a.blinded_key_share.validator_public_key@ == b.blinded_key_share.validator_public_key@
    &&& a.lagrange_n_0@ == b.lagrange_n_0@
}

fn clone_fast_contexts(contexts: &Vec<PublicDecryptionContextFast>) -> (out: Vec<
    PublicDecryptionContextFast,
>)
    ensures
        out@.len() == contexts@.len(),
        forall|j: int|
            0 <= j < contexts@.len() ==> same_fast_context(#[trigger] out@[j], contexts@[j]),
{
    let mut out: Vec<PublicDecryptionContextFast> = Vec::new();
    let mut j: usize = 0;
    while j < contexts.len()
        invariant
            j <= contexts@.len(),
            out@.len() == j,
            forall|k: int| 0 <= k < j ==> same_fast_context(#[trigger] out@[k], contexts@[k]),
        decreases contexts@.len() - j,
    {
        out.push(contexts[j].clone());
        j += 1;
    }
    out
}

/// Deals the polynomial `poly`, in the fast variant, to as many
/// participants as there are blinding factors: `ArithmeticError` where a
/// blinding factor or a domain point has no inverse,
/// `InvalidDkgParameters` where the field has no domain for that many.
pub fn deal_fast_setup(poly: &[Scalar], blinding: &[Scalar]) -> (out: Result<DealtFastSetup, Error>)
    requires
        poly@.len() > 0,
    ensures
        match out {
            Ok(setup) => {
                &&& all_invertible(scalar_views(blinding@))
                &&& blinding@.len() <= u32::MAX
                &&& domain_size(blinding@.len()) <= usize::MAX
                &&& deals_fast_setup(
                    setup,
                    scalar_views(poly@),
                    scalar_views(blinding@),
                    blinding@.len(),
                    domain_size(blinding@.len()),
                )
            },
            Err(e) => if blinding@.len() > u32::MAX || domain_size(blinding@.len()) > usize::MAX {
                e == Error::InvalidDkgParameters(
                    crate::messages::clamped(blinding@.len()),
                    crate::messages::clamped(poly@.len()),
                )
            } else {
                &&& e == Error::ArithmeticError
                &&& !all_invertible(scalar_views(blinding@)) || exists|i: int|
                    0 <= i < blinding@.len() && #[trigger] domain_point(
                        domain_size(blinding@.len()),
                        i as nat,
                    ) == 0
            },
        },
{
    let shares = blinding.len();
    let size = match domain_size_for_len(shares) {
        Some(size) => size,
        None => {
            return Err(
                Error::InvalidDkgParameters(
                    crate::messages::clamp(shares),
                    crate::messages::clamp(poly.len()),
                ),
            );
        },
    };
    let ghost values = scalar_views(poly@);
    let ghost factors = scalar_views(blinding@);
    let points = domain_elements(size, shares);
    let g = G1Point::generator();
    let h = G2Point::generator();
    let zero = Scalar::zero();
    let mut public_contexts: Vec<PublicDecryptionContextFast> = Vec::new();
    let mut private_shares: Vec<PrivateKeyShare> = Vec::new();
    let mut inverses: Vec<Scalar> = Vec::new();
    let mut i: usize = 0;
    while i < shares
        invariant
            i <= shares == blinding@.len(),
            shares <= u32::MAX,
            size == domain_size(shares as nat),
            points@.len() == shares,
            scalar_views(points@) == crate::domain::domain_points(size as nat, shares as nat),
            values == scalar_views(poly@),
            factors == scalar_views(blinding@),
            g@ == g1_generator(),
            h@ == g2_generator(),
            zero@ == 0,
            public_contexts@.len() == i,
            private_shares@.len() == i,
            inverses@.len() == i,
            forall|k: int| 0 <= k < i ==> #[trigger] factors[k] != 0,
            forall|k: int|
                0 <= k < i ==> (#[trigger] inverses@[k])@ == finv(factors[k]) && fmul(
                    factors[k],
                    inverses@[k]@,
                ) == 1,
            forall|k: int|
                0 <= k < i ==> (#[trigger] private_shares@[k])@ == g2_scaled(
                    g2_generator(),
                    poly_eval(values, domain_point(size as nat, k as nat)),
                ),
            forall|k: int|
                0 <= k < i ==> fast_context_of(
                    #[trigger] public_contexts@[k],
                    domain_point(size as nat, k as nat),
                    poly_eval(values, domain_point(size as nat, k as nat)),
                    factors[k],
                ),
        decreases shares - i,
    {
        assert(scalar_views(points@)[i as int] == points@[i as int]@);
        assert(factors[i as int] == blinding@[i as int]@);
        let eval = evaluate_polynomial(poly, &points[i]);
        let inverse = match blinding[i].inverse() {
            Some(inverse) => inverse,
            None => {
                assert(!all_invertible(factors));
                return Err(Error::ArithmeticError);
            },
        };
        let point_inverse = match points[i].inverse() {
            Some(inverse) => inverse,
            None => {
                assert(domain_point(domain_size(blinding@.len()), i as nat) == 0);
                return Err(Error::ArithmeticError);
            },
        };
        let public_key = g.mul(&eval);
        let private_share = h.mul(&eval);
        eval.zeroize();
        let blinded = private_share.mul(&blinding[i]).mul(&zero.sub(&point_inverse));
        public_contexts.push(
            PublicDecryptionContextFast {
                domain: points[i].clone(),
                public_key: ShareCommitment(public_key),
                blinded_key_share: BlindedKeyShare {
                    validator_public_key: h.mul(&blinding[i]),
                    blinded_key_share: blinded,
                },
                lagrange_n_0: zero.sub(&points[i]),
            },
        );
        private_shares.push(PrivateKeyShare(private_share));
        inverses.push(inverse);
        i += 1;
    }
    assert(all_invertible(factors));
    let mut contexts: Vec<PrivateDecryptionContextFast> = Vec::new();
    let mut i: usize = 0;
    while i < shares
        invariant
            i <= shares == blinding@.len(),
            values == scalar_views(poly@),
            factors == scalar_views(blinding@),
            public_contexts@.len() == shares,
            private_shares@.len() == shares,
            inverses@.len() == shares,
            contexts@.len() == i,
            forall|k: int|
                0 <= k < shares ==> (#[trigger] inverses@[k])@ == finv(factors[k]) && fmul(
                    factors[k],
                    inverses@[k]@,
                ) == 1,
            forall|k: int|
                0 <= k < shares ==> (#[trigger] private_shares@[k])@ == g2_scaled(
                    g2_generator(),
                    poly_eval(values, domain_point(size as nat, k as nat)),
                ),
            forall|k: int|
                0 <= k < shares ==> fast_context_of(
                    #[trigger] public_contexts@[k],
                    domain_point(size as nat, k as nat),
                    poly_eval(values, domain_point(size as nat, k as nat)),
                    factors[k],
                ),
            forall|k: int|
                0 <= k < i ==> {
                    let context = #[trigger] contexts@[k];
                    &&& context.index == k
                    &&& context.b@ == factors[k]
                    &&& context.b_inv@ == finv(factors[k])
                    &&& fmul(factors[k], context.b_inv@) == 1
                    &&& context.private_key_share@ == g2_scaled(
                        g2_generator(),
                        poly_eval(values, domain_point(size as nat, k as nat)),
                    )
                    &&& context.public_decryption_contexts@.len() == shares
                    &&& forall|j: int|
                        0 <= j < shares ==> fast_context_of(
                            #[trigger] context.public_decryption_contexts@[j],
                            domain_point(size as nat, j as nat),
                            poly_eval(values, domain_point(size as nat, j as nat)),
                            factors[j],
                        )
                },
        decreases shares - i,
    {
        assert(factors[i as int] == blinding@[i as int]@);
        let copies = clone_fast_contexts(&public_contexts);
        assert forall|j: int| 0 <= j < shares implies fast_context_of(
            #[trigger] copies@[j],
            domain_point(size as nat, j as nat),
            poly_eval(values, domain_point(size as nat, j as nat)),
            factors[j],
        ) by {
            assert(fast_context_of(
                public_contexts@[j],
                domain_point(size as nat, j as nat),
                poly_eval(values, domain_point(size as nat, j as nat)),
                factors[j],
            ));
            assert(same_fast_context(copies@[j], public_contexts@[j]));
        }
        contexts.push(
            PrivateDecryptionContextFast {
                index: i,
                b: blinding[i].clone(),
                b_inv: inverses[i].clone(),
                private_key_share: private_shares[i].clone(),
                public_decryption_contexts: copies,
            },
        );
        i += 1;
    }
    assert(values[0] == poly@[0]@);
    let public_key = DkgPublicKey(g.mul(&poly[0]));
    let private_key = PrivateKeyShare(h.mul(&poly[0]));
    Ok(DealtFastSetup { public_key, private_key, contexts })
}

/// Whether `setup` deals, in the fast variant, some polynomial of
/// `threshold` coefficients with some blinding factors.
pub open spec fn deals_some_fast_setup(
    setup: DealtFastSetup,
    poly: Seq<nat>,
    blinding: Seq<nat>,
    shares: nat,
    threshold: nat,
) -> bool {
    &&& poly.len() == threshold
    &&& blinding.len() == shares
    &&& deals_fast_setup(setup, poly, blinding, shares, domain_size(shares))
}

/// A setup of the fast variant for `shares_num` participants of which
/// `threshold` decrypt, with a polynomial and blinding factors drawn from
/// `rng`.
pub fn setup(threshold: usize, shares_num: usize, rng: &mut StdRng) -> (out: Result<DealtFastSetup, Error>)
    requires
        0 < threshold <= shares_num,
        threshold <= u32::MAX,
    ensures
        out matches Ok(setup) ==> exists|poly: Seq<nat>, blinding: Seq<nat>| #[trigger]
            deals_some_fast_setup(setup, poly, blinding, shares_num as nat, threshold as nat),
        out matches Err(e) ==> e == Error::ArithmeticError || e is InvalidDkgParameters,
{
    let threshold_poly = random_polynomial((threshold - 1) as u32, rng);
    let blinding = crate::fast::generate_random(shares_num, rng);
    let out = deal_fast_setup(threshold_poly.as_slice(), blinding.as_slice());
    proof {
        assert(scalar_views(threshold_poly@).len() == threshold_poly@.len());
        assert(scalar_views(blinding@).len() == blinding@.len());
        if out is Ok {
            assert(deals_some_fast_setup(
                out->Ok_0,
                scalar_views(threshold_poly@),
                scalar_views(blinding@),
                shares_num as nat,
                threshold as nat,
            ));
        }
    }
    zeroize_polynomial(threshold_poly);
    out
}

} // verus!
