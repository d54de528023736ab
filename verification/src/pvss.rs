//! Publicly verifiable secret sharing transcripts: dealing, the optimistic
//! and the full verification, aggregation, and the verification of an
//! aggregate against its inputs.

use vstd::prelude::*;
use core::marker::PhantomData;
use crate::curve::{
    g1_generator,
    g1_identity,
    g1_scaled,
    g1_sum,
    g1_views,
    g2_generator,
    g2_scaled,
    g2_sum,
    g2_views,
    pairing,
    pairing_of,
    G1Point,
    G2Point,
};
use crate::dkg::PubliclyVerifiableDkg;
use crate::domain::{domain_order, domain_points, evaluate_over_domain, g1_fft};
use crate::error::Error;
use crate::key_share::DkgPublicKey;
use crate::poly::{evaluate_polynomial, poly_eval, random_polynomial_with_secret, zeroize_polynomial};
use crate::scalar::{scalar_views, Scalar};
use crate::validator::{
    assert_no_share_duplicates,
    distinct_share_indices,
    first_repeat,
    validator_views,
    PublicKey,
    Validator,
    ValidatorView,
};
use rand::rngs::StdRng;

verus! {

/// The mark of a transcript as one dealer made it.
#[derive(Clone, Copy, Debug, PartialEq, Eq)]
pub struct Unaggregated;

/// The mark of a transcript that sums the transcripts of several dealers.
#[derive(Clone, Copy, Debug, PartialEq, Eq)]
pub struct Aggregated;

/// The marks under which a transcript offers what only an aggregate can do.
pub trait Aggregate {

}

impl Aggregate for Aggregated {

}

/// The generators of the two source groups.
#[derive(Debug, PartialEq, Eq)]
pub struct PubliclyVerifiableParams {
    pub g: G1Point,
    pub h: G2Point,
}

impl Clone for PubliclyVerifiableParams {
    fn clone(&self) -> (out: Self)
        ensures
            out.g@ == self.g@,
            out.h@ == self.h@,
    {
        PubliclyVerifiableParams { g: self.g.clone(), h: self.h.clone() }
    }
}

impl Default for PubliclyVerifiableParams {
    fn default() -> (out: Self)
        ensures
            out.g@ == g1_generator(),
            out.h@ == g2_generator(),
    {
        PubliclyVerifiableParams { g: G1Point::generator(), h: G2Point::generator() }
    }
}

impl PubliclyVerifiableParams {
    /// The inverse of the generator of the first group: the generator
    /// multiplied by minus one.
    pub fn g_inv(&self) -> (out: G1Point)
        ensures
            out@ == g1_scaled(self.g@, crate::scalar::fsub(0, 1)),
    {
        let minus_one = Scalar::zero().sub(&Scalar::one());
        self.g.mul(&minus_one)
    }
}

/// The polynomial that a dealer shares. It is wiped when the dealer is
/// done with it.
#[derive(Debug)]
pub struct SecretPolynomial(pub Vec<Scalar>);

impl SecretPolynomial {
    /// A polynomial of the given degree with the constant term `s` and the
    /// other coefficients drawn from `rng`.
    pub fn new(s: &Scalar, degree: u32, rng: &mut StdRng) -> (out: SecretPolynomial)
        ensures
            out.0@.len() == degree + 1,
            out.0@[0]@ == s@,
    {
        SecretPolynomial(random_polynomial_with_secret(s, degree, rng))
    }

    /// Overwrites every coefficient with zeros and drops the polynomial.
    pub fn zeroize(self) {
        zeroize_polynomial(self.0)
    }
}

/// The states of one dealer's sharing.
#[derive(Debug, PartialEq, Eq)]
pub enum VssState {
    /// Sharing, with the weight of the participants that signalled ready.
    Sharing { weight_ready: u32 },
    /// Done, with the commitment to the secret.
    Success { final_secret: G1Point },
    /// Ended in failure.
    Failure,
}

/// What a transcript is in contracts: the encodings of its commitments, of
/// its shares, and of its proof of knowledge.
pub struct TranscriptView {
    pub coeffs: Seq<Seq<u8>>,
    pub shares: Seq<Seq<u8>>,
    pub sigma: Seq<u8>,
}

/// A transcript: commitments to the coefficients of the dealt polynomial,
/// one blinded share for each validator, and the proof of knowledge of the
/// secret.
#[derive(Debug, PartialEq, Eq)]
pub struct PubliclyVerifiableSS<T = Unaggregated> {
    /// The commitments to the coefficients, constant term first.
    pub coeffs: Vec<G1Point>,
    /// The blinded shares, by share index.
    pub shares: Vec<G2Point>,
    /// The proof of knowledge of the secret.
    pub sigma: G2Point,
    /// The mark of the transcript.
    pub phantom: PhantomData<T>,
}

/// A transcript that sums the transcripts of several dealers.
pub type AggregatedPvss = PubliclyVerifiableSS<Aggregated>;

impl<T> View for PubliclyVerifiableSS<T> {
    type V = TranscriptView;

    open spec fn view(&self) -> TranscriptView {
        TranscriptView {
            coeffs: g1_views(self.coeffs@),
            shares: g2_views(self.shares@),
            sigma: self.sigma@,
        }
    }
}

/// A copy of a vector of points of the first group.
pub fn clone_g1_points(points: &Vec<G1Point>) -> (out: Vec<G1Point>)
    ensures
        g1_views(out@) == g1_views(points@),
        out@.len() == points@.len(),
{
    let mut out: Vec<G1Point> = Vec::new();
    let mut i: usize = 0;
    while i < points.len()
        invariant
            i <= points@.len(),
            out@.len() == i,
            forall|k: int| 0 <= k < i ==> (#[trigger] out@[k])@ == points@[k]@,
        decreases points@.len() - i,
    {
        out.push(points[i].clone());
        i += 1;
    }
    assert(g1_views(out@) =~= g1_views(points@));
    out
}

/// A copy of a vector of points of the second group.
pub fn clone_g2_points(points: &Vec<G2Point>) -> (out: Vec<G2Point>)
    ensures
        g2_views(out@) == g2_views(points@),
        out@.len() == points@.len(),
{
    let mut out: Vec<G2Point> = Vec::new();
    let mut i: usize = 0;
    while i < points.len()
        invariant
            i <= points@.len(),
            out@.len() == i,
            forall|k: int| 0 <= k < i ==> (#[trigger] out@[k])@ == points@[k]@,
        decreases points@.len() - i,
    {
        out.push(points[i].clone());
        i += 1;
    }
    assert(g2_views(out@) =~= g2_views(points@));
    out
}

impl<T> Clone for PubliclyVerifiableSS<T> {
    fn clone(&self) -> (out: Self)
        ensures
            out@ == self@,
    {
        PubliclyVerifiableSS {
            coeffs: clone_g1_points(&self.coeffs),
            shares: clone_g2_points(&self.shares),
            sigma: self.sigma.clone(),
            phantom: PhantomData,
        }
    }
}

/// The public keys of a sequence of validators.
pub open spec fn keys_of(vs: Seq<ValidatorView>) -> Seq<Seq<u8>> {
    vs.map_values(|v: ValidatorView| v.public_key)
}

/// The transcript that deals the polynomial `phi` to the validators with
/// the public keys `keys`, at the points `points`.
pub open spec fn dealt_transcript(phi: Seq<nat>, keys: Seq<Seq<u8>>, points: Seq<nat>) -> TranscriptView {
    TranscriptView {
        coeffs: Seq::new(phi.len(), |k: int| g1_scaled(g1_generator(), phi[k])),
        shares: Seq::new(keys.len(), |i: int| g2_scaled(keys[i], poly_eval(phi, points[i]))),
        sigma: g2_scaled(g2_generator(), phi[0]),
    }
}

/// Whether `transcript` deals some polynomial of `threshold` coefficients
/// whose constant term is `secret`.
pub open spec fn deals_secret(
    transcript: TranscriptView,
    phi: Seq<nat>,
    secret: nat,
    threshold: nat,
    keys: Seq<Seq<u8>>,
    points: Seq<nat>,
) -> bool {
    &&& phi.len() == threshold
    &&& phi[0] == secret
    &&& transcript == dealt_transcript(phi, keys, points)
}

/// Whether the proof of knowledge holds: the first commitment pairs with
/// the generator of the second group as the generator of the first does
/// with the proof.
pub open spec fn proof_of_knowledge_holds(t: TranscriptView) -> bool {
    &&& t.coeffs.len() > 0
    &&& pairing_of(t.coeffs[0], g2_generator()) == pairing_of(g1_generator(), t.sigma)
}

/// Whether a blinded share matches its commitment under the validator's key.
pub open spec fn share_matches(commitment: Seq<u8>, share: Seq<u8>, key: Seq<u8>) -> bool {
    pairing_of(g1_generator(), share) == pairing_of(commitment, key)
}

/// What the check of one validator's share gives.
pub open spec fn validator_share_check(
    commitments: Seq<Seq<u8>>,
    shares: Seq<Seq<u8>>,
    share_index: int,
    key: Seq<u8>,
) -> Result<bool, Error> {
    if share_index >= shares.len() || share_index >= commitments.len() {
        Err(Error::InvalidShareIndex(share_index as u32))
    } else {
        Ok(share_matches(commitments[share_index], shares[share_index], key))
    }
}

/// What the walk over the validators from position `from` gives: the error
/// of the first validator whose index is out of range, `false` at the first
/// whose share does not match, `true` where all match.
pub open spec fn share_scan(
    commitments: Seq<Seq<u8>>,
    shares: Seq<Seq<u8>>,
    vs: Seq<ValidatorView>,
    from: int,
) -> Result<bool, Error>
    decreases vs.len() - from,
{
    if from < 0 || from >= vs.len() {
        Ok(true)
    } else {
        match validator_share_check(
            commitments,
            shares,
            vs[from].share_index as int,
            vs[from].public_key,
        ) {
            Err(e) => Err(e),
            Ok(false) => Ok(false),
            Ok(true) => share_scan(commitments, shares, vs, from + 1),
        }
    }
}

/// Whether `out` is what the full check of commitments and shares against
/// the validators gives.
pub open spec fn full_check_gives(
    coeffs: Seq<Seq<u8>>,
    shares: Seq<Seq<u8>>,
    vs: Seq<ValidatorView>,
    size: nat,
    out: Result<bool, Error>,
) -> bool {
    if !distinct_share_indices(vs) {
        exists|i: int|
            first_repeat(vs, i) && out == Err::<bool, Error>(
                Error::DuplicatedShareIndex(vs[i].share_index),
            )
    } else {
        out == share_scan(g1_fft(coeffs, size), shares, vs, 0)
    }
}

/// The sum of the `k`-th points of the first `n` columns, from the first on.
pub open spec fn column_sum_g1(columns: Seq<Seq<Seq<u8>>>, k: int, n: nat) -> Seq<u8>
    decreases n,
{
    if n <= 1 {
        columns[0][k]
    } else {
        g1_sum(column_sum_g1(columns, k, (n - 1) as nat), columns[n - 1][k])
    }
}

/// The sum of the `k`-th points of the first `n` columns, from the first on.
pub open spec fn column_sum_g2(columns: Seq<Seq<Seq<u8>>>, k: int, n: nat) -> Seq<u8>
    decreases n,
{
    if n <= 1 {
        columns[0][k]
    } else {
        g2_sum(column_sum_g2(columns, k, (n - 1) as nat), columns[n - 1][k])
    }
}

/// The sum of the first `n` points, from the first on.
pub open spec fn sequence_sum_g2(points: Seq<Seq<u8>>, n: nat) -> Seq<u8>
    decreases n,
{
    if n <= 1 {
        points[0]
    } else {
        g2_sum(sequence_sum_g2(points, (n - 1) as nat), points[n - 1])
    }
}

/// The views of a sequence of transcripts.
pub open spec fn transcript_views(ts: Seq<PubliclyVerifiableSS>) -> Seq<TranscriptView> {
    ts.map_values(|t: PubliclyVerifiableSS| t@)
}

/// Whether the transcripts have one shape: as many commitments and as many
/// shares each as the first.
pub open spec fn same_shape(ts: Seq<TranscriptView>) -> bool {
    forall|j: int|
        0 <= j < ts.len() ==> (#[trigger] ts[j]).coeffs.len() == ts[0].coeffs.len()
            && ts[j].shares.len() == ts[0].shares.len()
}

/// The aggregate of the transcripts: commitments, shares and proofs of
/// knowledge summed position by position, in the order of the transcripts.
pub open spec fn aggregate_of(ts: Seq<TranscriptView>) -> TranscriptView {
    let coeff_columns = ts.map_values(|t: TranscriptView| t.coeffs);
    let share_columns = ts.map_values(|t: TranscriptView| t.shares);
    let sigmas = ts.map_values(|t: TranscriptView| t.sigma);
    TranscriptView {
        coeffs: Seq::new(ts[0].coeffs.len(), |k: int| column_sum_g1(coeff_columns, k, ts.len())),
        shares: Seq::new(ts[0].shares.len(), |k: int| column_sum_g2(share_columns, k, ts.len())),
        sigma: sequence_sum_g2(sigmas, ts.len()),
    }
}

/// The sum of a column over a prefix does not depend on what follows the
/// prefix.
pub proof fn lemma_column_sum_g1_prefix(a: Seq<Seq<Seq<u8>>>, b: Seq<Seq<Seq<u8>>>, k: int, n: nat)
    requires
        0 < n <= a.len(),
        n <= b.len(),
        forall|j: int| 0 <= j < n ==> a[j] == b[j],
    ensures
        column_sum_g1(a, k, n) == column_sum_g1(b, k, n),
    decreases n,
{
    if n > 1 {
        lemma_column_sum_g1_prefix(a, b, k, (n - 1) as nat);
    }
}

/// The sum of a column over a prefix does not depend on what follows the
/// prefix.
pub proof fn lemma_column_sum_g2_prefix(a: Seq<Seq<Seq<u8>>>, b: Seq<Seq<Seq<u8>>>, k: int, n: nat)
    requires
        0 < n <= a.len(),
        n <= b.len(),
        forall|j: int| 0 <= j < n ==> a[j] == b[j],
    ensures
        column_sum_g2(a, k, n) == column_sum_g2(b, k, n),
    decreases n,
{
    if n > 1 {
        lemma_column_sum_g2_prefix(a, b, k, (n - 1) as nat);
    }
}

/// The sum of a prefix does not depend on what follows the prefix.
pub proof fn lemma_sequence_sum_g2_prefix(a: Seq<Seq<u8>>, b: Seq<Seq<u8>>, n: nat)
    requires
        0 < n <= a.len(),
        n <= b.len(),
        forall|j: int| 0 <= j < n ==> a[j] == b[j],
    ensures
        sequence_sum_g2(a, n) == sequence_sum_g2(b, n),
    decreases n,
{
    if n > 1 {
        lemma_sequence_sum_g2_prefix(a, b, (n - 1) as nat);
    }
}

/// Aggregation can be done in steps: the aggregate of transcripts and one
/// more is the aggregate of the aggregate of the transcripts with the one
/// more.
pub proof fn lemma_aggregation_in_steps(ts: Seq<TranscriptView>, t: TranscriptView)
    requires
        ts.len() > 0,
        same_shape(ts.push(t)),
    ensures
        aggregate_of(ts.push(t)) == aggregate_of(seq![aggregate_of(ts), t]),
{
    let all = ts.push(t);
    let n = ts.len();
    let head = aggregate_of(ts);
    let pair = seq![head, t];
    assert(all[0] == ts[0]);
    assert(all[n as int] == t);
    assert(t.coeffs.len() == ts[0].coeffs.len() && t.shares.len() == ts[0].shares.len());
    let all_coeffs = all.map_values(|x: TranscriptView| x.coeffs);
    let ts_coeffs = ts.map_values(|x: TranscriptView| x.coeffs);
    let pair_coeffs = pair.map_values(|x: TranscriptView| x.coeffs);
    let all_shares = all.map_values(|x: TranscriptView| x.shares);
    let ts_shares = ts.map_values(|x: TranscriptView| x.shares);
    let pair_shares = pair.map_values(|x: TranscriptView| x.shares);
    let all_sigmas = all.map_values(|x: TranscriptView| x.sigma);
    let ts_sigmas = ts.map_values(|x: TranscriptView| x.sigma);
    let pair_sigmas = pair.map_values(|x: TranscriptView| x.sigma);
    assert forall|j: int| 0 <= j < n implies all_coeffs[j] == ts_coeffs[j] && all_shares[j]
        == ts_shares[j] && all_sigmas[j] == ts_sigmas[j] by {
        assert(all[j] == ts[j]);
    }
    assert forall|k: int| 0 <= k < ts[0].coeffs.len() implies column_sum_g1(
        all_coeffs,
        k,
        (n + 1) as nat,
    ) == column_sum_g1(pair_coeffs, k, 2) by {
        lemma_column_sum_g1_prefix(all_coeffs, ts_coeffs, k, n);
        assert(pair_coeffs[0] == head.coeffs);
        assert(pair_coeffs[1] == t.coeffs);
        assert(all_coeffs[n as int] == t.coeffs);
        assert(column_sum_g1(pair_coeffs, k, 1) == head.coeffs[k]);
    }
    assert forall|k: int| 0 <= k < ts[0].shares.len() implies column_sum_g2(
        all_shares,
        k,
        (n + 1) as nat,
    ) == column_sum_g2(pair_shares, k, 2) by {
        lemma_column_sum_g2_prefix(all_shares, ts_shares, k, n);
        assert(pair_shares[0] == head.shares);
        assert(pair_shares[1] == t.shares);
        assert(all_shares[n as int] == t.shares);
        assert(column_sum_g2(pair_shares, k, 1) == head.shares[k]);
    }
    lemma_sequence_sum_g2_prefix(all_sigmas, ts_sigmas, n);
    assert(pair_sigmas[0] == head.sigma);
    assert(pair_sigmas[1] == t.sigma);
    assert(all_sigmas[n as int] == t.sigma);
    assert(sequence_sum_g2(pair_sigmas, 1) == head.sigma);
    assert(aggregate_of(all).coeffs =~= aggregate_of(pair).coeffs);
    assert(aggregate_of(all).shares =~= aggregate_of(pair).shares);
}

/// The aggregate of one transcript is the transcript.
pub proof fn lemma_aggregate_of_one(t: TranscriptView)
    ensures
        aggregate_of(seq![t]) == t,
{
    let one = seq![t];
    let coeffs = one.map_values(|x: TranscriptView| x.coeffs);
    let shares = one.map_values(|x: TranscriptView| x.shares);
    assert(coeffs[0] == t.coeffs);
    assert(shares[0] == t.shares);
    assert(aggregate_of(one).coeffs =~= t.coeffs);
    assert(aggregate_of(one).shares =~= t.shares);
}

/// The sum of the first commitments of the first `n` transcripts, starting
/// from the identity.
pub open spec fn first_coefficient_sum(ts: Seq<TranscriptView>, n: nat) -> Seq<u8>
    decreases n,
{
    if n == 0 {
        g1_identity()
    } else {
        g1_sum(first_coefficient_sum(ts, (n - 1) as nat), ts[n - 1].coeffs[0])
    }
}

/// Whether the first commitment of an aggregate is the sum of the first
/// commitments of the transcripts.
pub open spec fn aggregation_matches(agg_coeffs: Seq<Seq<u8>>, ts: Seq<TranscriptView>) -> bool {
    &&& agg_coeffs.len() > 0
    &&& forall|j: int| 0 <= j < ts.len() ==> (#[trigger] ts[j]).coeffs.len() > 0
    &&& first_coefficient_sum(ts, ts.len()) == agg_coeffs[0]
}

/// Whether `out` is what the check of an aggregate against the validators
/// and the transcripts gives: the error of the full check; else
/// `InvalidTranscriptAggregate` unless the full check passes and the first
/// commitment matches the transcripts; else `true`.
pub open spec fn aggregation_check_gives(
    agg_coeffs: Seq<Seq<u8>>,
    agg_shares: Seq<Seq<u8>>,
    vs: Seq<ValidatorView>,
    size: nat,
    ts: Seq<TranscriptView>,
    out: Result<bool, Error>,
) -> bool {
    if !distinct_share_indices(vs) {
        full_check_gives(agg_coeffs, agg_shares, vs, size, out)
    } else {
        match share_scan(g1_fft(agg_coeffs, size), agg_shares, vs, 0) {
            Err(e) => out == Err::<bool, Error>(e),
            Ok(false) => out == Err::<bool, Error>(Error::InvalidTranscriptAggregate),
            Ok(true) => if aggregation_matches(agg_coeffs, ts) {
                out == Ok::<bool, Error>(true)
            } else {
                out == Err::<bool, Error>(Error::InvalidTranscriptAggregate)
            },
        }
    }
}

impl<T> PubliclyVerifiableSS<T> {
    /// A transcript of the given parts.
    pub fn from_parts(coeffs: Vec<G1Point>, shares: Vec<G2Point>, sigma: G2Point) -> (out: Self)
        ensures
            out.coeffs == coeffs,
            out.shares == shares,
            out.sigma == sigma,
    {
        PubliclyVerifiableSS { coeffs, shares, sigma, phantom: PhantomData }
    }

    /// Deals the polynomial `phi` in the session: the commitments are the
    /// generator multiplied by each coefficient, the share of a validator is
    /// its public key multiplied by the polynomial's value at its domain
    /// point, and the proof of knowledge is the generator of the second
    /// group multiplied by the constant term.
    ///
    /// Fails with `InsufficientValidators` where the session has fewer
    /// validators than shares.
    pub fn deal(phi: &[Scalar], dkg: &PubliclyVerifiableDkg) -> (out: Result<Self, Error>)
        requires
            phi@.len() > 0,
        ensures
            match out {
                Ok(t) => dkg.validator_list().len() >= dkg.params().shares() && t@
                    == dealt_transcript(
                    scalar_views(phi@),
                    keys_of(dkg.validator_list()),
                    domain_points(dkg.order(), dkg.validator_list().len()),
                ),
                Err(e) => dkg.validator_list().len() < dkg.params().shares() && e
                    == Error::InsufficientValidators(
                    dkg.validator_list().len() as u32,
                    dkg.params().shares(),
                ),
            },
    {
        let validators = dkg.validators();
        let shares_num = dkg.dkg_params().shares_num();
        if validators.len() < shares_num as usize {
            return Err(Error::InsufficientValidators(validators.len() as u32, shares_num));
        }
        let points = dkg.domain_points();
        let ghost phi_values = scalar_views(phi@);
        let ghost keys = keys_of(dkg.validator_list());
        let ghost point_values = domain_points(dkg.order(), dkg.validator_list().len());
        let generator = G1Point::generator();
        let mut coeffs: Vec<G1Point> = Vec::new();
        let mut k: usize = 0;
        while k < phi.len()
            invariant
                k <= phi@.len(),
                coeffs@.len() == k,
                phi_values == scalar_views(phi@),
                generator@ == g1_generator(),
                forall|j: int|
                    0 <= j < k ==> (#[trigger] coeffs@[j])@ == g1_scaled(g1_generator(), phi_values[j]),
            decreases phi@.len() - k,
        {
            assert(phi_values[k as int] == phi@[k as int]@);
            coeffs.push(generator.mul(&phi[k]));
            k += 1;
        }
        let mut shares: Vec<G2Point> = Vec::new();
        let mut i: usize = 0;
        while i < validators.len()
            invariant
                i <= validators@.len(),
                shares@.len() == i,
                points@.len() == validators@.len(),
                phi_values == scalar_views(phi@),
                validator_views(validators@) == dkg.validator_list(),
                keys == keys_of(dkg.validator_list()),
                point_values == scalar_views(points@),
                forall|j: int|
                    0 <= j < i ==> (#[trigger] shares@[j])@ == g2_scaled(
                        keys[j],
                        poly_eval(phi_values, point_values[j]),
                    ),
            decreases validators@.len() - i,
        {
            let eval = evaluate_polynomial(phi, &points[i]);
            assert(point_values[i as int] == points@[i as int]@);
            assert(keys[i as int] == validators@[i as int].public_key@) by {
                assert(validator_views(validators@)[i as int] == validators@[i as int]@);
            }
            shares.push(validators[i].public_key.encryption_key.mul(&eval));
            eval.zeroize();
            i += 1;
        }
        assert(phi_values[0] == phi@[0]@);
        let sigma = G2Point::generator().mul(&phi[0]);
        let out = PubliclyVerifiableSS { coeffs, shares, sigma, phantom: PhantomData };
        assert(out@.coeffs =~= dealt_transcript(phi_values, keys, point_values).coeffs);
        assert(out@.shares =~= dealt_transcript(phi_values, keys, point_values).shares);
        Ok(out)
    }

    /// Deals the secret `s` in the session with a polynomial drawn from
    /// `rng`, whose degree is one less than the threshold. The polynomial
    /// is wiped before the transcript is returned.
    pub fn new(s: &Scalar, dkg: &PubliclyVerifiableDkg, rng: &mut StdRng) -> (out: Result<Self, Error>)
        ensures
            match out {
                Ok(t) => dkg.validator_list().len() >= dkg.params().shares() && exists|
                    phi: Seq<nat>,
                |
                    #[trigger] deals_secret(
                        t@,
                        phi,
                        s@,
                        dkg.params().threshold() as nat,
                        keys_of(dkg.validator_list()),
                        domain_points(dkg.order(), dkg.validator_list().len()),
                    ),
                Err(e) => dkg.validator_list().len() < dkg.params().shares() && e
                    == Error::InsufficientValidators(
                    dkg.validator_list().len() as u32,
                    dkg.params().shares(),
                ),
            },
    {
        let threshold = dkg.dkg_params().security_threshold();
        let phi = random_polynomial_with_secret(s, threshold - 1, rng);
        let out = Self::deal(phi.as_slice(), dkg);
        proof {
            assert(scalar_views(phi@).len() == phi@.len());
            assert(scalar_views(phi@)[0] == phi@[0]@);
            if out is Ok {
                assert(deals_secret(
                    out->Ok_0@,
                    scalar_views(phi@),
                    s@,
                    dkg.params().threshold() as nat,
                    keys_of(dkg.validator_list()),
                    domain_points(dkg.order(), dkg.validator_list().len()),
                ));
            }
        }
        zeroize_polynomial(phi);
        out
    }

    /// The optimistic check: whether the proof of knowledge holds. It costs
    /// two pairings, whatever the number of validators.
    pub fn verify_optimistic(&self) -> (ok: bool)
        ensures
            ok == proof_of_knowledge_holds(self@),
    {
        if self.coeffs.len() == 0 {
            return false;
        }
        assert(self@.coeffs[0] == self.coeffs@[0]@);
        let left = pairing(&self.coeffs[0], &G2Point::generator());
        let right = pairing(&G1Point::generator(), &self.sigma);
        left.equals(&right)
    }

    /// The full check in a session: the optimistic check, and then the
    /// share of every validator against the commitment to it.
    pub fn verify_full(&self, dkg: &PubliclyVerifiableDkg) -> (out: Result<bool, Error>)
        ensures
            if !proof_of_knowledge_holds(self@) {
                out == Ok::<bool, Error>(false)
            } else {
                full_check_gives(self@.coeffs, self@.shares, dkg.validator_list(), dkg.order(), out)
            },
    {
        if !self.verify_optimistic() {
            return Ok(false);
        }
        let size = dkg.domain_size();
        do_verify_full(&self.coeffs, &self.shares, dkg.validators().as_slice(), size)
    }
}

/// The commitments to the shares: the evaluations of the committed
/// polynomial at the elements of the domain.
pub fn get_share_commitments_from_poly_commitments(poly_comms: &Vec<G1Point>, domain_size: usize) -> (out:
    Vec<G1Point>)
    requires
        domain_order(domain_size as nat),
    ensures
        g1_views(out@) == g1_fft(g1_views(poly_comms@), domain_size as nat),
        out@.len() == domain_size,
{
    evaluate_over_domain(poly_comms, domain_size)
}

/// Checks one validator's share against the commitment to it:
/// `InvalidShareIndex` where there is no share or no commitment of that
/// index.
pub fn verify_validator_share(
    share_commitments: &Vec<G1Point>,
    pvss_encrypted_shares: &Vec<G2Point>,
    share_index: usize,
    validator_public_key: &PublicKey,
) -> (out: Result<bool, Error>)
    requires
        share_index <= u32::MAX,
    ensures
        out == validator_share_check(
            g1_views(share_commitments@),
            g2_views(pvss_encrypted_shares@),
            share_index as int,
            validator_public_key@,
        ),
{
    if share_index >= pvss_encrypted_shares.len() || share_index >= share_commitments.len() {
        return Err(Error::InvalidShareIndex(share_index as u32));
    }
    let y_i = &pvss_encrypted_shares[share_index];
    let a_i = &share_commitments[share_index];
    assert(g1_views(share_commitments@)[share_index as int] == a_i@);
    assert(g2_views(pvss_encrypted_shares@)[share_index as int] == y_i@);
    let left = pairing(&G1Point::generator(), y_i);
    let right = pairing(a_i, &validator_public_key.encryption_key);
    Ok(left.equals(&right))
}

/// The full check of commitments and shares against validators: no share
/// index may repeat, and every validator's share must match the commitment
/// to it. Repeated indices are refused before any pairing is computed.
pub fn do_verify_full(
    pvss_coefficients: &Vec<G1Point>,
    pvss_encrypted_shares: &Vec<G2Point>,
    validators: &[Validator],
    domain_size: usize,
) -> (out: Result<bool, Error>)
    requires
        domain_order(domain_size as nat),
    ensures
        full_check_gives(
            g1_views(pvss_coefficients@),
            g2_views(pvss_encrypted_shares@),
            validator_views(validators@),
            domain_size as nat,
            out,
        ),
{
    let ghost vs = validator_views(validators@);
    match assert_no_share_duplicates(validators) {
        Err(e) => {
            return Err(e);
        },
        Ok(_) => {},
    }
    let share_commitments = get_share_commitments_from_poly_commitments(
        pvss_coefficients,
        domain_size,
    );
    let ghost commitments = g1_views(share_commitments@);
    let ghost shares = g2_views(pvss_encrypted_shares@);
    let mut i: usize = 0;
    while i < validators.len()
        invariant
            i <= validators@.len(),
            vs == validator_views(validators@),
            distinct_share_indices(vs),
            commitments == g1_views(share_commitments@),
            commitments == g1_fft(g1_views(pvss_coefficients@), domain_size as nat),
            shares == g2_views(pvss_encrypted_shares@),
            share_scan(commitments, shares, vs, 0) == share_scan(commitments, shares, vs, i as int),
        decreases validators@.len() - i,
    {
        assert(vs[i as int] == validators@[i as int]@);
        assert(share_scan(commitments, shares, vs, i as int) == match validator_share_check(
            commitments,
            shares,
            vs[i as int].share_index as int,
            vs[i as int].public_key,
        ) {
            Err(e) => Err::<bool, Error>(e),
            Ok(false) => Ok::<bool, Error>(false),
            Ok(true) => share_scan(commitments, shares, vs, i + 1),
        });
        let checked = verify_validator_share(
            &share_commitments,
            pvss_encrypted_shares,
            validators[i].share_index as usize,
            &validators[i].public_key,
        );
        match checked {
            Err(e) => {
                return Err(e);
            },
            Ok(is_valid) => {
                if !is_valid {
                    return Ok(false);
                }
            },
        }
        i += 1;
    }
    Ok(true)
}

/// The check of an aggregate against the validators and the transcripts it
/// claims to sum: the full check, and then the first commitment against the
/// sum of the transcripts' first commitments.
pub fn do_verify_aggregation(
    pvss_agg_coefficients: &Vec<G1Point>,
    pvss_agg_encrypted_shares: &Vec<G2Point>,
    validators: &[Validator],
    domain_size: usize,
    pvss: &[PubliclyVerifiableSS],
) -> (out: Result<bool, Error>)
    requires
        domain_order(domain_size as nat),
    ensures
        aggregation_check_gives(
            g1_views(pvss_agg_coefficients@),
            g2_views(pvss_agg_encrypted_shares@),
            validator_views(validators@),
            domain_size as nat,
            transcript_views(pvss@),
            out,
        ),
{
    let ghost ts = transcript_views(pvss@);
    let ghost agg_coeffs = g1_views(pvss_agg_coefficients@);
    let checked = do_verify_full(
        pvss_agg_coefficients,
        pvss_agg_encrypted_shares,
        validators,
        domain_size,
    );
    match checked {
        Err(e) => {
            return Err(e);
        },
        Ok(is_valid) => {
            if !is_valid {
                return Err(Error::InvalidTranscriptAggregate);
            }
        },
    }
    if pvss_agg_coefficients.len() == 0 {
        return Err(Error::InvalidTranscriptAggregate);
    }
    let mut y = G1Point::identity();
    let mut j: usize = 0;
    while j < pvss.len()
        invariant
            j <= pvss@.len(),
            ts == transcript_views(pvss@),
            agg_coeffs == g1_views(pvss_agg_coefficients@),
            distinct_share_indices(validator_views(validators@)),
            share_scan(
                g1_fft(agg_coeffs, domain_size as nat),
                g2_views(pvss_agg_encrypted_shares@),
                validator_views(validators@),
                0,
            ) == Ok::<bool, Error>(true),
            forall|k: int| 0 <= k < j ==> (#[trigger] ts[k]).coeffs.len() > 0,
            y@ == first_coefficient_sum(ts, j as nat),
        decreases pvss@.len() - j,
    {
        assert(ts[j as int] == pvss@[j as int]@);
        if pvss[j].coeffs.len() == 0 {
            assert(!aggregation_matches(agg_coeffs, ts));
            return Err(Error::InvalidTranscriptAggregate);
        }
        assert(ts[j as int].coeffs[0] == pvss@[j as int].coeffs@[0]@);
        y = y.add(&pvss[j].coeffs[0]);
        j += 1;
    }
    assert(agg_coeffs[0] == pvss_agg_coefficients@[0]@);
    if y.equals(&pvss_agg_coefficients[0]) {
        Ok(true)
    } else {
        Err(Error::InvalidTranscriptAggregate)
    }
}

/// The sums, position by position, of two vectors of one length.
fn add_g1_points(acc: &Vec<G1Point>, next: &Vec<G1Point>) -> (out: Vec<G1Point>)
    requires
        acc@.len() == next@.len(),
    ensures
        out@.len() == acc@.len(),
        forall|k: int| 0 <= k < out@.len() ==> (#[trigger] out@[k])@ == g1_sum(acc@[k]@, next@[k]@),
{
    let mut out: Vec<G1Point> = Vec::new();
    let mut k: usize = 0;
    while k < acc.len()
        invariant
            k <= acc@.len(),
            acc@.len() == next@.len(),
            out@.len() == k,
            forall|j: int| 0 <= j < k ==> (#[trigger] out@[j])@ == g1_sum(acc@[j]@, next@[j]@),
        decreases acc@.len() - k,
    {
        out.push(acc[k].add(&next[k]));
        k += 1;
    }
    out
}

/// The sums, position by position, of two vectors of one length.
fn add_g2_points(acc: &Vec<G2Point>, next: &Vec<G2Point>) -> (out: Vec<G2Point>)
    requires
        acc@.len() == next@.len(),
    ensures
        out@.len() == acc@.len(),
        forall|k: int| 0 <= k < out@.len() ==> (#[trigger] out@[k])@ == g2_sum(acc@[k]@, next@[k]@),
{
    let mut out: Vec<G2Point> = Vec::new();
    let mut k: usize = 0;
    while k < acc.len()
        invariant
            k <= acc@.len(),
            acc@.len() == next@.len(),
            out@.len() == k,
            forall|j: int| 0 <= j < k ==> (#[trigger] out@[j])@ == g2_sum(acc@[j]@, next@[j]@),
        decreases acc@.len() - k,
    {
        out.push(acc[k].add(&next[k]));
        k += 1;
    }
    out
}

/// Aggregates transcripts of one session: commitments, shares and proofs of
/// knowledge are summed position by position.
///
/// Fails with `NoTranscriptsToAggregate` on no transcripts.
pub fn aggregate(transcripts: &[PubliclyVerifiableSS]) -> (out: Result<AggregatedPvss, Error>)
    requires
        same_shape(transcript_views(transcripts@)),
    ensures
        match out {
            Ok(agg) => transcripts@.len() > 0 && agg@ == aggregate_of(transcript_views(transcripts@)),
            Err(e) => transcripts@.len() == 0 && e == Error::NoTranscriptsToAggregate,
        },
{
    if transcripts.len() == 0 {
        return Err(Error::NoTranscriptsToAggregate);
    }
    let ghost ts = transcript_views(transcripts@);
    let ghost coeff_columns = ts.map_values(|t: TranscriptView| t.coeffs);
    let ghost share_columns = ts.map_values(|t: TranscriptView| t.shares);
    let ghost sigmas = ts.map_values(|t: TranscriptView| t.sigma);
    let first = &transcripts[0];
    assert(ts[0] == first@);
    let mut coeffs = clone_g1_points(&first.coeffs);
    let mut shares = clone_g2_points(&first.shares);
    let mut sigma = first.sigma.clone();
    let mut n: usize = 1;
    assert forall|k: int| 0 <= k < coeffs@.len() implies (#[trigger] coeffs@[k])@ == column_sum_g1(
        coeff_columns,
        k,
        1,
    ) by {
        assert(g1_views(coeffs@)[k] == coeffs@[k]@);
    }
    assert forall|k: int| 0 <= k < shares@.len() implies (#[trigger] shares@[k])@ == column_sum_g2(
        share_columns,
        k,
        1,
    ) by {
        assert(g2_views(shares@)[k] == shares@[k]@);
    }
    while n < transcripts.len()
        invariant
            1 <= n <= transcripts@.len(),
            ts == transcript_views(transcripts@),
            same_shape(ts),
            coeff_columns == ts.map_values(|t: TranscriptView| t.coeffs),
            share_columns == ts.map_values(|t: TranscriptView| t.shares),
            sigmas == ts.map_values(|t: TranscriptView| t.sigma),
            coeffs@.len() == ts[0].coeffs.len(),
            shares@.len() == ts[0].shares.len(),
            forall|k: int|
                0 <= k < coeffs@.len() ==> (#[trigger] coeffs@[k])@ == column_sum_g1(
                    coeff_columns,
                    k,
                    n as nat,
                ),
            forall|k: int|
                0 <= k < shares@.len() ==> (#[trigger] shares@[k])@ == column_sum_g2(
                    share_columns,
                    k,
                    n as nat,
                ),
            sigma@ == sequence_sum_g2(sigmas, n as nat),
        decreases transcripts@.len() - n,
    {
        let next = &transcripts[n];
        assert(ts[n as int] == next@);
        assert(ts[n as int].coeffs.len() == ts[0].coeffs.len());
        sigma = sigma.add(&next.sigma);
        let summed_coeffs = add_g1_points(&coeffs, &next.coeffs);
        let summed_shares = add_g2_points(&shares, &next.shares);
        assert forall|k: int| 0 <= k < summed_coeffs@.len() implies (#[trigger] summed_coeffs@[k])@
            == column_sum_g1(coeff_columns, k, (n + 1) as nat) by {
            assert(coeff_columns[n as int][k] == next.coeffs@[k]@) by {
                assert(g1_views(next.coeffs@)[k] == next.coeffs@[k]@);
            }
        }
        assert forall|k: int| 0 <= k < summed_shares@.len() implies (#[trigger] summed_shares@[k])@
            == column_sum_g2(share_columns, k, (n + 1) as nat) by {
            assert(share_columns[n as int][k] == next.shares@[k]@) by {
                assert(g2_views(next.shares@)[k] == next.shares@[k]@);
            }
        }
        coeffs = summed_coeffs;
        shares = summed_shares;
        n += 1;
    }
    let out = PubliclyVerifiableSS { coeffs, shares, sigma, phantom: PhantomData };
    assert(out@.coeffs =~= aggregate_of(ts).coeffs);
    assert(out@.shares =~= aggregate_of(ts).shares);
    Ok(out)
}

/// An aggregate together with the group public key it commits to.
#[derive(Debug, PartialEq, Eq)]
pub struct AggregatedTranscript {
    pub aggregate: AggregatedPvss,
    pub public_key: DkgPublicKey,
}

impl Clone for AggregatedTranscript {
    fn clone(&self) -> (out: Self)
        ensures
            out.aggregate@ == self.aggregate@,
            out.public_key@ == self.public_key@,
    {
        AggregatedTranscript { aggregate: self.aggregate.clone(), public_key: self.public_key.clone() }
    }
}

impl AggregatedTranscript {
    /// The aggregate of transcripts of one session, with its public key.
    /// Fails with `NoTranscriptsToAggregate` on no transcripts, and with
    /// `InvalidTranscriptAggregate` where the transcripts hold no commitment.
    pub fn from_transcripts(transcripts: &[PubliclyVerifiableSS]) -> (out: Result<
        AggregatedTranscript,
        Error,
    >)
        requires
            same_shape(transcript_views(transcripts@)),
        ensures
            match out {
                Ok(agg) => {
                    &&& transcripts@.len() > 0
                    &&& agg.aggregate@ == aggregate_of(transcript_views(transcripts@))
                    &&& agg.aggregate@.coeffs.len() > 0
                    &&& agg.public_key@ == agg.aggregate@.coeffs[0]
                },
                Err(e) => if transcripts@.len() == 0 {
                    e == Error::NoTranscriptsToAggregate
                } else {
                    e == Error::InvalidTranscriptAggregate && transcript_views(
                        transcripts@,
                    )[0].coeffs.len() == 0
                },
            },
    {
        match aggregate(transcripts) {
            Ok(aggregate) => {
                assert(transcript_views(transcripts@)[0] == transcripts@[0]@);
                AggregatedTranscript::from_aggregate(aggregate)
            },
            Err(e) => Err(e),
        }
    }

    /// An aggregate with its public key: its first commitment. Fails with
    /// `InvalidTranscriptAggregate` where it holds no commitment.
    pub fn from_aggregate(aggregate: AggregatedPvss) -> (out: Result<AggregatedTranscript, Error>)
        ensures
            match out {
                Ok(agg) => {
                    &&& agg.aggregate@ == aggregate@
                    &&& aggregate@.coeffs.len() > 0
                    &&& agg.public_key@ == aggregate@.coeffs[0]
                },
                Err(e) => e == Error::InvalidTranscriptAggregate && aggregate@.coeffs.len() == 0,
            },
    {
        if aggregate.coeffs.len() == 0 {
            return Err(Error::InvalidTranscriptAggregate);
        }
        assert(aggregate@.coeffs[0] == aggregate.coeffs@[0]@);
        let public_key = DkgPublicKey(aggregate.coeffs[0].clone());
        Ok(AggregatedTranscript { aggregate, public_key })
    }
}

} // verus!
