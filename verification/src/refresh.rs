//! Share updates: refresh (the shares change, the secret does not),
//! recovery (updates that vanish at a chosen point), and the handover of one
//! slot to a new key pair.

use vstd::prelude::*;
use core::marker::PhantomData;
use crate::ciphertext::{header_verifies, CiphertextHeader};
use crate::curve::{
    g1_generator,
    g1_identity,
    g1_scaled,
    g1_sum,
    g1_views,
    g2_scaled,
    g2_sum,
    g2_views,
    pairing,
    pairing_of,
    G1Point,
    G2Point,
};
use crate::decryption::{
    precomputed_share_of,
    simple_share_of,
    DecryptionSharePrecomputed,
    DecryptionShareSimple,
};
use crate::domain::{domain_order, domain_size, domain_size_for_len, g1_fft};
use crate::error::Error;
use crate::index_map::{position_of, IndexMap};
use crate::key_share::{unblinded, BlindedKeyShare, PrivateKeyShare, ShareCommitment};
use crate::poly::{
    evaluate_polynomial,
    lagrange_coefficient,
    make_random_polynomial_with_root,
    poly_eval,
    zeroize_polynomial,
};
use crate::pvss::{
    clone_g1_points,
    clone_g2_points,
    get_share_commitments_from_poly_commitments,
    share_matches,
    Aggregate,
    PubliclyVerifiableSS,
    TranscriptView,
};
use crate::scalar::{finv, scalar_views, Scalar};
use crate::validator::{public_key_of, Keypair, PublicKey, Validator};
use rand::rngs::StdRng;

verus! {

/// One producer's contribution to one validator's share: the update itself,
/// blinded by the validator's key, and the commitment to it.
#[derive(Debug, PartialEq, Eq)]
pub struct ShareUpdate {
    pub update: G2Point,
    pub commitment: G1Point,
}

impl Clone for ShareUpdate {
    fn clone(&self) -> (out: Self)
        ensures
            out.update@ == self.update@,
            out.commitment@ == self.commitment@,
    {
        ShareUpdate { update: self.update.clone(), commitment: self.commitment.clone() }
    }
}

/// Whether an update matches its commitment under the target's key.
pub open spec fn update_matches(update: Seq<u8>, commitment: Seq<u8>, key: Seq<u8>) -> bool {
    pairing_of(g1_generator(), update) == pairing_of(commitment, key)
}

impl ShareUpdate {
    /// Checks the update against the target validator's public key:
    /// `Ok(true)` where it matches its commitment, else `InvalidShareUpdate`.
    pub fn verify(&self, target_validator_public_key: &G2Point) -> (out: Result<bool, Error>)
        ensures
            match out {
                Ok(ok) => ok && update_matches(
                    self.update@,
                    self.commitment@,
                    target_validator_public_key@,
                ),
                Err(e) => e == Error::InvalidShareUpdate && !update_matches(
                    self.update@,
                    self.commitment@,
                    target_validator_public_key@,
                ),
            },
    {
        let left = pairing(&G1Point::generator(), &self.update);
        let right = pairing(&self.commitment, target_validator_public_key);
        if left.equals(&right) {
            Ok(true)
        } else {
            Err(Error::InvalidShareUpdate)
        }
    }
}

/// The updates that one producer deals: the commitments to its update
/// polynomial, and one update for each target validator.
#[derive(Debug, PartialEq, Eq)]
pub struct UpdateTranscript {
    /// The commitments to the coefficients of the update polynomial.
    pub coeffs: Vec<G1Point>,
    /// The updates, by the share index of their target.
    pub updates: IndexMap<ShareUpdate>,
}

/// The domain points of the targets of a set of updates.
pub open spec fn target_points(targets: IndexMap<(Scalar, PublicKey)>) -> Seq<nat> {
    targets.spec_values().map_values(|t: (Scalar, PublicKey)| t.0@)
}

/// The public keys of the targets of a set of updates.
pub open spec fn target_keys(targets: IndexMap<(Scalar, PublicKey)>) -> Seq<Seq<u8>> {
    targets.spec_values().map_values(|t: (Scalar, PublicKey)| t.1@)
}

/// Whether `transcript` deals the update polynomial `poly` to the targets
/// with the share indices `indices`, the domain points `points` and the
/// public keys `keys`: the commitments are the generator multiplied by each
/// coefficient; the update of a target is its key, and its commitment the
/// generator, multiplied by the polynomial's value at the target's point.
pub open spec fn deals_updates(
    transcript: UpdateTranscript,
    indices: Seq<u32>,
    points: Seq<nat>,
    keys: Seq<Seq<u8>>,
    poly: Seq<nat>,
) -> bool {
    &&& g1_views(transcript.coeffs@).len() == poly.len()
    &&& forall|k: int|
        0 <= k < poly.len() ==> #[trigger] g1_views(transcript.coeffs@)[k] == g1_scaled(
            g1_generator(),
            poly[k],
        )
    &&& transcript.updates.spec_keys() == indices
    &&& transcript.updates.spec_values().len() == indices.len()
    &&& forall|i: int|
        0 <= i < indices.len() ==> {
            let value = poly_eval(poly, points[i]);
            &&& (#[trigger] transcript.updates.spec_values()[i]).update@ == g2_scaled(keys[i], value)
            &&& transcript.updates.spec_values()[i].commitment@ == g1_scaled(g1_generator(), value)
        }
}

/// Whether `transcript` deals some update polynomial of `threshold`
/// coefficients that vanishes at `root`.
pub open spec fn deals_updates_with_root(
    transcript: UpdateTranscript,
    indices: Seq<u32>,
    points: Seq<nat>,
    keys: Seq<Seq<u8>>,
    poly: Seq<nat>,
    root: nat,
    threshold: nat,
) -> bool {
    &&& poly.len() == threshold
    &&& poly_eval(poly, root) == 0
    &&& deals_updates(transcript, indices, points, keys, poly)
}

/// The value in the first group of the committed polynomial at `root`, by
/// Horner's rule from the coefficient at `from` on.
pub open spec fn g1_horner(coeffs: Seq<Seq<u8>>, from: int, root: nat) -> Seq<u8>
    decreases coeffs.len() - from,
{
    if from >= coeffs.len() - 1 {
        coeffs[coeffs.len() - 1]
    } else {
        g1_sum(coeffs[from], g1_scaled(g1_horner(coeffs, from + 1, root), root))
    }
}

/// Whether the commitments are those of a polynomial that vanishes at
/// `root`: for the root zero the first commitment is the identity; for
/// another root the committed polynomial evaluates to the identity there.
pub open spec fn root_check(coeffs: Seq<Seq<u8>>, root: nat) -> bool {
    &&& coeffs.len() > 0
    &&& if root == 0 {
        coeffs[0] == g1_identity()
    } else {
        g1_horner(coeffs, 0, root) == g1_identity()
    }
}

/// What the walk over the updates from position `from` gives, in the order
/// of the targets' share indices: `InvalidShareIndex` where a target has no
/// key or no commitment, `InvalidShareUpdate` where an update does not match
/// its commitment under the target's key or its commitment is not the one
/// recovered from the polynomial commitments.
pub open spec fn update_scan(
    updates: IndexMap<ShareUpdate>,
    keys: IndexMap<PublicKey>,
    commitments: Seq<Seq<u8>>,
    from: int,
) -> Result<bool, Error>
    decreases updates.spec_keys().len() - from,
{
    if from < 0 || from >= updates.spec_keys().len() {
        Ok(true)
    } else {
        let index = updates.spec_keys()[from];
        let update = updates.spec_values()[from];
        if !keys.has(index) {
            Err(Error::InvalidShareIndex(index))
        } else if !update_matches(update.update@, update.commitment@, keys.value_of(index)@) {
            Err(Error::InvalidShareUpdate)
        } else if index >= commitments.len() {
            Err(Error::InvalidShareIndex(index))
        } else if commitments[index as int] != update.commitment@ {
            Err(Error::InvalidShareUpdate)
        } else {
            update_scan(updates, keys, commitments, from + 1)
        }
    }
}

/// What the verification of an update transcript gives.
pub open spec fn update_check(
    transcript: UpdateTranscript,
    keys: IndexMap<PublicKey>,
    size: nat,
    root: nat,
) -> Result<bool, Error> {
    match update_scan(transcript.updates, keys, g1_fft(g1_views(transcript.coeffs@), size), 0) {
        Err(e) => Err(e),
        Ok(_) => if root_check(g1_views(transcript.coeffs@), root) {
            Ok(true)
        } else {
            Err(Error::InvalidShareUpdate)
        },
    }
}

impl UpdateTranscript {
    /// Deals the update polynomial `poly` to the targets.
    pub fn from_polynomial(domain_points_and_keys: &IndexMap<(Scalar, PublicKey)>, poly: &[Scalar]) -> (out:
        UpdateTranscript)
        ensures
            deals_updates(
                out,
                domain_points_and_keys.spec_keys(),
                target_points(*domain_points_and_keys),
                target_keys(*domain_points_and_keys),
                scalar_views(poly@),
            ),
    {
        let ghost values = scalar_views(poly@);
        let generator = G1Point::generator();
        let mut coeffs: Vec<G1Point> = Vec::new();
        let mut k: usize = 0;
        while k < poly.len()
            invariant
                k <= poly@.len(),
                coeffs@.len() == k,
                values == scalar_views(poly@),
                generator@ == g1_generator(),
                forall|j: int|
                    0 <= j < k ==> (#[trigger] coeffs@[j])@ == g1_scaled(g1_generator(), values[j]),
            decreases poly@.len() - k,
        {
            assert(values[k as int] == poly@[k as int]@);
            coeffs.push(generator.mul(&poly[k]));
            k += 1;
        }
        assert(g1_views(coeffs@).len() == values.len());
        assert forall|k: int| 0 <= k < values.len() implies #[trigger] g1_views(coeffs@)[k]
            == g1_scaled(g1_generator(), values[k]) by {
            assert(g1_views(coeffs@)[k] == coeffs@[k]@);
        }
        let n = domain_points_and_keys.len();
        let mut updates: IndexMap<ShareUpdate> = IndexMap::new();
        let mut i: usize = 0;
        while i < n
            invariant
                i <= n == domain_points_and_keys.spec_keys().len(),
                domain_points_and_keys.ordered(),
                updates.ordered(),
                values == scalar_views(poly@),
                generator@ == g1_generator(),
                updates.spec_keys() == domain_points_and_keys.spec_keys().subrange(0, i as int),
                updates.spec_values().len() == i,
                forall|j: int|
                    0 <= j < i ==> {
                        let value = poly_eval(values, domain_points_and_keys.spec_values()[j].0@);
                        &&& (#[trigger] updates.spec_values()[j]).update@ == g2_scaled(
                            domain_points_and_keys.spec_values()[j].1@,
                            value,
                        )
                        &&& updates.spec_values()[j].commitment@ == g1_scaled(
                            g1_generator(),
                            value,
                        )
                    },
            decreases n - i,
        {
            let share_index = domain_points_and_keys.key_at(i);
            let target = domain_points_and_keys.value_at(i);
            let eval = evaluate_polynomial(poly, &target.0);
            let update = target.1.encryption_key.mul(&eval);
            let commitment = generator.mul(&eval);
            eval.zeroize();
            let ghost before = updates;
            assert forall|j: int| 0 <= j < before.spec_keys().len() implies before.spec_keys()[j]
                < share_index by {
                assert(before.spec_keys()[j] == domain_points_and_keys.spec_keys()[j]);
            }
            updates = updates.push_back(share_index, ShareUpdate { update, commitment });
            assert(updates.spec_keys() =~= domain_points_and_keys.spec_keys().subrange(0, i + 1));
            assert forall|j: int| 0 <= j < i + 1 implies {
                let value = poly_eval(values, domain_points_and_keys.spec_values()[j].0@);
                &&& (#[trigger] updates.spec_values()[j]).update@ == g2_scaled(
                    domain_points_and_keys.spec_values()[j].1@,
                    value,
                )
                &&& updates.spec_values()[j].commitment@ == g1_scaled(g1_generator(), value)
            } by {
                if j < i {
                    assert(updates.spec_values()[j] == before.spec_values()[j]);
                }
            }
            i += 1;
        }
        assert(updates.spec_keys() =~= domain_points_and_keys.spec_keys());
        assert forall|i: int| 0 <= i < n implies {
            let value = poly_eval(values, target_points(*domain_points_and_keys)[i]);
            &&& (#[trigger] updates.spec_values()[i]).update@ == g2_scaled(
                target_keys(*domain_points_and_keys)[i],
                value,
            )
            &&& updates.spec_values()[i].commitment@ == g1_scaled(g1_generator(), value)
        } by {
            assert(target_points(*domain_points_and_keys)[i]
                == domain_points_and_keys.spec_values()[i].0@);
            assert(target_keys(*domain_points_and_keys)[i]
                == domain_points_and_keys.spec_values()[i].1@);
        }
        UpdateTranscript { coeffs, updates }
    }

    /// Updates for a refresh: the update polynomial has `threshold`
    /// coefficients, drawn from `rng`, and vanishes at zero.
    pub fn create_refresh_updates(
        domain_points_and_keys: &IndexMap<(Scalar, PublicKey)>,
        threshold: u32,
        rng: &mut StdRng,
    ) -> (out: UpdateTranscript)
        requires
            threshold > 0,
        ensures
            exists|poly: Seq<nat>| #[trigger]
                deals_updates_with_root(
                    out,
                    domain_points_and_keys.spec_keys(),
                    target_points(*domain_points_and_keys),
                    target_keys(*domain_points_and_keys),
                    poly,
                    0,
                    threshold as nat,
                ),
    {
        let zero = Scalar::zero();
        prepare_share_updates_with_root(domain_points_and_keys, &zero, threshold, rng)
    }

    /// Updates for a recovery at `x_r`: the update polynomial has
    /// `threshold` coefficients, drawn from `rng`, and vanishes at `x_r`.
    pub fn create_recovery_updates(
        domain_points_and_keys: &IndexMap<(Scalar, PublicKey)>,
        x_r: &Scalar,
        threshold: u32,
        rng: &mut StdRng,
    ) -> (out: UpdateTranscript)
        requires
            threshold > 0,
        ensures
            exists|poly: Seq<nat>| #[trigger]
                deals_updates_with_root(
                    out,
                    domain_points_and_keys.spec_keys(),
                    target_points(*domain_points_and_keys),
                    target_keys(*domain_points_and_keys),
                    poly,
                    x_r@,
                    threshold as nat,
                ),
    {
        prepare_share_updates_with_root(domain_points_and_keys, x_r, threshold, rng)
    }

    /// Verifies the transcript for updates that vanish at `root`: every
    /// update against its target's key and against the commitment recovered
    /// from the polynomial commitments, and the polynomial commitments
    /// against the root.
    pub fn verify_recovery(
        &self,
        validator_public_keys: &IndexMap<PublicKey>,
        domain_size: usize,
        root: &Scalar,
    ) -> (out: Result<bool, Error>)
        requires
            domain_order(domain_size as nat),
        ensures
            out == update_check(*self, *validator_public_keys, domain_size as nat, root@),
    {
        let reconstructed_commitments = get_share_commitments_from_poly_commitments(
            &self.coeffs,
            domain_size,
        );
        let ghost commitments = g1_views(reconstructed_commitments@);
        let n = self.updates.len();
        let mut i: usize = 0;
        while i < n
            invariant
                i <= n == self.updates.spec_keys().len(),
                self.updates.ordered(),
                commitments == g1_views(reconstructed_commitments@),
                commitments == g1_fft(g1_views(self.coeffs@), domain_size as nat),
                update_scan(self.updates, *validator_public_keys, commitments, 0) == update_scan(
                    self.updates,
                    *validator_public_keys,
                    commitments,
                    i as int,
                ),
            decreases n - i,
        {
            let index = self.updates.key_at(i);
            let update = self.updates.value_at(i);
            assert(update_scan(self.updates, *validator_public_keys, commitments, i as int) == {
                if !validator_public_keys.has(index) {
                    Err::<bool, Error>(Error::InvalidShareIndex(index))
                } else if !update_matches(
                    update.update@,
                    update.commitment@,
                    validator_public_keys.value_of(index)@,
                ) {
                    Err::<bool, Error>(Error::InvalidShareUpdate)
                } else if index >= commitments.len() {
                    Err::<bool, Error>(Error::InvalidShareIndex(index))
                } else if commitments[index as int] != update.commitment@ {
                    Err::<bool, Error>(Error::InvalidShareUpdate)
                } else {
                    update_scan(self.updates, *validator_public_keys, commitments, i + 1)
                }
            });
            let key = match validator_public_keys.get(index) {
                Some(key) => key,
                None => {
                    return Err(Error::InvalidShareIndex(index));
                },
            };
            match update.verify(&key.encryption_key) {
                Ok(_) => {},
                Err(e) => {
                    return Err(e);
                },
            }
            if index as usize >= reconstructed_commitments.len() {
                return Err(Error::InvalidShareIndex(index));
            }
            assert(commitments[index as int] == reconstructed_commitments@[index as int]@);
            if !reconstructed_commitments[index as usize].equals(&update.commitment) {
                return Err(Error::InvalidShareUpdate);
            }
            i += 1;
        }
        let ghost coeffs = g1_views(self.coeffs@);
        if self.coeffs.len() == 0 {
            return Err(Error::InvalidShareUpdate);
        }
        if root.is_zero() {
            assert(coeffs[0] == self.coeffs@[0]@);
            if self.coeffs[0].is_identity() {
                Ok(true)
            } else {
                Err(Error::InvalidShareUpdate)
            }
        } else {
            let mut k: usize = self.coeffs.len() - 1;
            assert(coeffs[k as int] == self.coeffs@[k as int]@);
            let mut acc = self.coeffs[k].clone();
            while k > 0
                invariant
                    k < self.coeffs@.len(),
                    coeffs == g1_views(self.coeffs@),
                    acc@ == g1_horner(coeffs, k as int, root@),
                decreases k,
            {
                k -= 1;
                let b = acc.mul(root);
                assert(coeffs[k as int] == self.coeffs@[k as int]@);
                acc = self.coeffs[k].add(&b);
            }
            if acc.is_identity() {
                Ok(true)
            } else {
                Err(Error::InvalidShareUpdate)
            }
        }
    }

    /// Verifies the transcript for a refresh: updates that vanish at zero.
    pub fn verify_refresh(&self, validator_public_keys: &IndexMap<PublicKey>, domain_size: usize) -> (out:
        Result<bool, Error>)
        requires
            domain_order(domain_size as nat),
        ensures
            out == update_check(*self, *validator_public_keys, domain_size as nat, 0),
    {
        let zero = Scalar::zero();
        self.verify_recovery(validator_public_keys, domain_size, &zero)
    }
}

/// Deals a random update polynomial of `threshold` coefficients that
/// vanishes at `root`. The polynomial is wiped before the transcript is
/// returned.
fn prepare_share_updates_with_root(
    domain_points_and_keys: &IndexMap<(Scalar, PublicKey)>,
    root: &Scalar,
    threshold: u32,
    rng: &mut StdRng,
) -> (out: UpdateTranscript)
    requires
        threshold > 0,
    ensures
        exists|poly: Seq<nat>| #[trigger]
            deals_updates_with_root(
                    out,
                    domain_points_and_keys.spec_keys(),
                    target_points(*domain_points_and_keys),
                    target_keys(*domain_points_and_keys),
                    poly,
                    root@,
                    threshold as nat,
                ),
{
    let update_poly = make_random_polynomial_with_root(threshold - 1, root, rng);
    let out = UpdateTranscript::from_polynomial(domain_points_and_keys, update_poly.as_slice());
    assert(scalar_views(update_poly@).len() == update_poly@.len());
    assert(deals_updates_with_root(
        out,
        domain_points_and_keys.spec_keys(),
        target_points(*domain_points_and_keys),
        target_keys(*domain_points_and_keys),
        scalar_views(update_poly@),
        root@,
        threshold as nat,
    ));
    zeroize_polynomial(update_poly);
    out
}

/// The share `share` with the updates for `index` of the first `n`
/// transcripts added, in the order of the producers' share indices.
pub open spec fn updates_applied(
    share: Seq<u8>,
    transcripts: Seq<UpdateTranscript>,
    index: u32,
    n: nat,
) -> Seq<u8>
    decreases n,
{
    if n == 0 {
        share
    } else {
        g2_sum(
            updates_applied(share, transcripts, index, (n - 1) as nat),
            transcripts[n - 1].updates.value_of(index).update@,
        )
    }
}

/// Whether every transcript holds an update for `index`.
pub open spec fn all_update(transcripts: Seq<UpdateTranscript>, index: u32) -> bool {
    forall|p: int| 0 <= p < transcripts.len() ==> (#[trigger] transcripts[p]).updates.has(index)
}

/// A blinded key share that takes updates.
#[derive(Debug, PartialEq, Eq)]
pub struct UpdatableBlindedKeyShare(pub BlindedKeyShare);

impl Clone for UpdatableBlindedKeyShare {
    fn clone(&self) -> (out: Self)
        ensures
            out.0.validator_public_key@ == self.0.validator_public_key@,
            out.0.blinded_key_share@ == self.0.blinded_key_share@,
    {
        UpdatableBlindedKeyShare(self.0.clone())
    }
}

impl UpdatableBlindedKeyShare {
    /// Wraps a blinded key share.
    pub fn new(blinded_key_share: BlindedKeyShare) -> (out: Self)
        ensures
            out.0 == blinded_key_share,
    {
        UpdatableBlindedKeyShare(blinded_key_share)
    }

    /// The share with the updates for `index` of every transcript added, in
    /// the order of the producers' share indices. `InvalidShareIndex` where
    /// a transcript holds no update for `index`.
    pub fn apply_share_updates(&self, update_transcripts: &IndexMap<UpdateTranscript>, index: u32) -> (out:
        Result<Self, Error>)
        ensures
            match out {
                Ok(updated) => {
                    &&& all_update(update_transcripts.spec_values(), index)
                    &&& updated.0.validator_public_key@ == self.0.validator_public_key@
                    &&& updated.0.blinded_key_share@ == updates_applied(
                        self.0.blinded_key_share@,
                        update_transcripts.spec_values(),
                        index,
                        update_transcripts.spec_values().len(),
                    )
                },
                Err(e) => e == Error::InvalidShareIndex(index) && !all_update(
                    update_transcripts.spec_values(),
                    index,
                ),
            },
    {
        let n = update_transcripts.len();
        let ghost transcripts = update_transcripts.spec_values();
        let mut acc = self.0.blinded_key_share.clone();
        let mut p: usize = 0;
        while p < n
            invariant
                p <= n == transcripts.len(),
                transcripts == update_transcripts.spec_values(),
                update_transcripts.ordered(),
                forall|q: int| 0 <= q < p ==> (#[trigger] transcripts[q]).updates.has(index),
                acc@ == updates_applied(self.0.blinded_key_share@, transcripts, index, p as nat),
            decreases n - p,
        {
            let producer = update_transcripts.value_at(p);
            match producer.updates.get(index) {
                Some(delta) => {
                    acc = acc.add(&delta.update);
                },
                None => {
                    assert(!transcripts[p as int].updates.has(index));
                    return Err(Error::InvalidShareIndex(index));
                },
            }
            p += 1;
        }
        Ok(
            UpdatableBlindedKeyShare(
                BlindedKeyShare {
                    validator_public_key: self.0.validator_public_key.clone(),
                    blinded_key_share: acc,
                },
            ),
        )
    }

    /// Removes the blinding; `ArithmeticError` where the key is zero.
    pub fn unblind_private_key_share(&self, validator_keypair: &Keypair) -> (out: Result<
        PrivateKeyShare,
        Error,
    >)
        ensures
            match out {
                Ok(z) => validator_keypair@ != 0 && z@ == unblinded(
                    self.0.blinded_key_share@,
                    validator_keypair@,
                ),
                Err(e) => validator_keypair@ == 0 && e == Error::ArithmeticError,
            },
    {
        self.0.unblind(validator_keypair)
    }

    /// The validator's decryption share in the simple variant.
    pub fn create_decryption_share_simple(
        &self,
        ciphertext_header: &CiphertextHeader,
        aad: &[u8],
        validator_keypair: &Keypair,
    ) -> (out: Result<DecryptionShareSimple, Error>)
        ensures
            match out {
                Ok(share) => validator_keypair@ != 0 && header_verifies(ciphertext_header@, aad@)
                    && share@ == simple_share_of(
                    ciphertext_header.commitment@,
                    unblinded(self.0.blinded_key_share@, validator_keypair@),
                    validator_keypair@,
                ),
                Err(e) => if validator_keypair@ == 0 {
                    e == Error::ArithmeticError
                } else {
                    e == Error::CiphertextVerificationFailed && !header_verifies(
                        ciphertext_header@,
                        aad@,
                    )
                },
            },
    {
        self.0.create_decryption_share_simple(ciphertext_header, aad, validator_keypair)
    }

    /// The validator's decryption share in the precomputed variant, for the
    /// selected participants whose domain points the map holds.
    pub fn create_decryption_share_precomputed(
        &self,
        ciphertext_header: &CiphertextHeader,
        aad: &[u8],
        validator_keypair: &Keypair,
        share_index: u32,
        domain_points_map: &IndexMap<Scalar>,
    ) -> (out: Result<DecryptionSharePrecomputed, Error>)
        ensures
            match out {
                Ok(share) => {
                    &&& domain_points_map.has(share_index)
                    &&& validator_keypair@ != 0
                    &&& header_verifies(ciphertext_header@, aad@)
                    &&& share@ == precomputed_share_of(
                        share_index,
                        ciphertext_header.commitment@,
                        unblinded(self.0.blinded_key_share@, validator_keypair@),
                        validator_keypair@,
                        lagrange_coefficient(
                            scalar_views(domain_points_map.spec_values()),
                            position_of(domain_points_map.spec_keys(), share_index),
                            0,
                        ),
                    )
                },
                Err(e) => if !domain_points_map.has(share_index) {
                    e == Error::InvalidShareIndex(share_index)
                } else if validator_keypair@ == 0 {
                    e == Error::ArithmeticError
                } else {
                    e == Error::CiphertextVerificationFailed && !header_verifies(
                        ciphertext_header@,
                        aad@,
                    )
                },
            },
    {
        self.0.create_decryption_share_precomputed(
            ciphertext_header,
            aad,
            validator_keypair,
            share_index,
            domain_points_map,
        )
    }
}

/// What the incoming validator of a handover publishes: the slot's share
/// blinded a second time by its own key, the share as it found it, its
/// public key, and the outgoing validator's public key blinded by its own.
#[derive(Debug, PartialEq, Eq)]
pub struct HandoverTranscript {
    /// The slot that changes hands.
    pub share_index: u32,
    /// The slot's blinded share multiplied by the incoming decryption key.
    pub double_blinded_share: G2Point,
    /// The slot's blinded share before the handover.
    pub old_blinded_share: G2Point,
    /// The incoming validator's public key.
    pub new_blinding_commitment: G2Point,
    /// The outgoing validator's public key multiplied by the incoming
    /// decryption key.
    pub challenge_response: G2Point,
}

impl Clone for HandoverTranscript {
    fn clone(&self) -> (out: Self)
        ensures
            out.share_index == self.share_index,
            out.double_blinded_share@ == self.double_blinded_share@,
            out.old_blinded_share@ == self.old_blinded_share@,
            out.new_blinding_commitment@ == self.new_blinding_commitment@,
            out.challenge_response@ == self.challenge_response@,
    {
        HandoverTranscript {
            share_index: self.share_index,
            double_blinded_share: self.double_blinded_share.clone(),
            old_blinded_share: self.old_blinded_share.clone(),
            new_blinding_commitment: self.new_blinding_commitment.clone(),
            challenge_response: self.challenge_response.clone(),
        }
    }
}

/// Whether `out` is what the finalization of a handover gives: the
/// transcript must validate against the share commitment
/// (`InvalidShareUpdate`), the finalizing key must be the one that the
/// response was made for (`ValidatorPublicKeyMismatch`) and have an inverse
/// (`ArithmeticError`); the new share is the double-blinded share with the
/// outgoing blinding removed, under the incoming validator's key.
pub open spec fn finalization_gives(
    transcript: HandoverTranscript,
    dk: nat,
    commitment: Seq<u8>,
    out: Result<BlindedKeyShare, Error>,
) -> bool {
    if !share_matches(commitment, transcript.double_blinded_share@, transcript.challenge_response@) {
        out matches Err(e) && e == Error::InvalidShareUpdate
    } else if g2_scaled(transcript.new_blinding_commitment@, dk) != transcript.challenge_response@ {
        out matches Err(e) && e == Error::ValidatorPublicKeyMismatch
    } else if dk == 0 {
        out matches Err(e) && e == Error::ArithmeticError
    } else {
        &&& out matches Ok(share)
        &&& share.validator_public_key@ == transcript.new_blinding_commitment@
        &&& share.blinded_key_share@ == unblinded(transcript.double_blinded_share@, dk)
    }
}

impl HandoverTranscript {
    /// The transcript with which the holder of `incoming_validator_keypair`
    /// asks for the slot `share_index`, whose share the outgoing validator
    /// holds blinded by `outgoing_pubkey`.
    pub fn new(
        share_index: u32,
        outgoing_blinded_share: &BlindedKeyShare,
        outgoing_pubkey: &PublicKey,
        incoming_validator_keypair: &Keypair,
    ) -> (out: HandoverTranscript)
        ensures
            out.share_index == share_index,
            out.double_blinded_share@ == g2_scaled(
                outgoing_blinded_share.blinded_key_share@,
                incoming_validator_keypair@,
            ),
            out.old_blinded_share@ == outgoing_blinded_share.blinded_key_share@,
            out.new_blinding_commitment@ == public_key_of(incoming_validator_keypair@),
            out.challenge_response@ == g2_scaled(outgoing_pubkey@, incoming_validator_keypair@),
    {
        let dk = &incoming_validator_keypair.decryption_key;
        HandoverTranscript {
            share_index,
            double_blinded_share: outgoing_blinded_share.blinded_key_share.mul(dk),
            old_blinded_share: outgoing_blinded_share.blinded_key_share.clone(),
            new_blinding_commitment: incoming_validator_keypair.public_key().encryption_key,
            challenge_response: outgoing_pubkey.encryption_key.mul(dk),
        }
    }

    /// The public check: whether the double-blinded share matches the
    /// slot's share commitment under the response.
    pub fn validate(&self, share_commitment: &ShareCommitment) -> (out: Result<bool, Error>)
        ensures
            out == Ok::<bool, Error>(
                share_matches(share_commitment@, self.double_blinded_share@, self.challenge_response@),
            ),
    {
        let left = pairing(&G1Point::generator(), &self.double_blinded_share);
        let right = pairing(&share_commitment.0, &self.challenge_response);
        Ok(left.equals(&right))
    }

    /// The public check against both validators: the old share matches the
    /// commitment under the outgoing key, the double-blinded share matches
    /// it under the response, and the transcript names the incoming key.
    pub fn verify(
        &self,
        share_commitment: &ShareCommitment,
        outgoing_pubkey: &PublicKey,
        incoming_pubkey: &PublicKey,
    ) -> (ok: bool)
        ensures
            ok == {
                &&& share_matches(share_commitment@, self.old_blinded_share@, outgoing_pubkey@)
                &&& share_matches(
                    share_commitment@,
                    self.double_blinded_share@,
                    self.challenge_response@,
                )
                &&& self.new_blinding_commitment@ == incoming_pubkey@
            },
    {
        let generator = G1Point::generator();
        let old_left = pairing(&generator, &self.old_blinded_share);
        let old_right = pairing(&share_commitment.0, &outgoing_pubkey.encryption_key);
        if !old_left.equals(&old_right) {
            return false;
        }
        let left = pairing(&generator, &self.double_blinded_share);
        let right = pairing(&share_commitment.0, &self.challenge_response);
        if !left.equals(&right) {
            return false;
        }
        self.new_blinding_commitment.equals(&incoming_pubkey.encryption_key)
    }

    /// The outgoing validator's part: it strips its blinding from the
    /// double-blinded share, which leaves the share blinded by the incoming
    /// validator's key.
    pub fn finalize(&self, outgoing_validator_keypair: &Keypair, share_commitment: &ShareCommitment) -> (out:
        Result<BlindedKeyShare, Error>)
        ensures
            finalization_gives(*self, outgoing_validator_keypair@, share_commitment@, out),
    {
        match self.validate(share_commitment) {
            Ok(valid) => {
                if !valid {
                    return Err(Error::InvalidShareUpdate);
                }
            },
            Err(e) => {
                return Err(e);
            },
        }
        let dk = &outgoing_validator_keypair.decryption_key;
        let expected = self.new_blinding_commitment.mul(dk);
        if !expected.equals(&self.challenge_response) {
            return Err(Error::ValidatorPublicKeyMismatch);
        }
        match dk.inverse() {
            Some(inverse) => Ok(
                BlindedKeyShare {
                    validator_public_key: self.new_blinding_commitment.clone(),
                    blinded_key_share: self.double_blinded_share.mul(&inverse),
                },
            ),
            None => Err(Error::ArithmeticError),
        }
    }
}

/// Whether a refresh of `shares` shares goes through: the field has a
/// domain for them, every update transcript verifies as a refresh, every
/// share index has a key, and every transcript an update for it.
pub open spec fn refresh_accepts(
    shares: nat,
    transcripts: IndexMap<UpdateTranscript>,
    keys: IndexMap<PublicKey>,
) -> bool {
    &&& shares <= u32::MAX
    &&& domain_size(shares) <= usize::MAX
    &&& forall|p: int|
        0 <= p < transcripts.spec_values().len() ==> update_check(
            #[trigger] transcripts.spec_values()[p],
            keys,
            domain_size(shares),
            0,
        ) is Ok
    &&& forall|j: int|
        0 <= j < shares ==> #[trigger] keys.has(j as u32) && all_update(
            transcripts.spec_values(),
            j as u32,
        )
}

/// The error of the first update transcript, from position `from` on in
/// the order of the producers, that does not verify as a refresh.
pub open spec fn first_update_failure(
    transcripts: Seq<UpdateTranscript>,
    keys: IndexMap<PublicKey>,
    size: nat,
    from: int,
) -> Option<Error>
    decreases transcripts.len() - from,
{
    if from < 0 || from >= transcripts.len() {
        None
    } else {
        match update_check(transcripts[from], keys, size, 0) {
            Err(e) => Some(e),
            Ok(_) => first_update_failure(transcripts, keys, size, from + 1),
        }
    }
}

/// The first share index, from `from` on, that has no key or for which a
/// transcript holds no update.
pub open spec fn first_unserved_index(
    shares: nat,
    transcripts: Seq<UpdateTranscript>,
    keys: IndexMap<PublicKey>,
    from: int,
) -> Option<u32>
    decreases shares - from,
{
    if from < 0 || from >= shares {
        None
    } else if !keys.has(from as u32) || !all_update(transcripts, from as u32) {
        Some(from as u32)
    } else {
        first_unserved_index(shares, transcripts, keys, from + 1)
    }
}

/// The error with which a refresh of `shares` shares is refused, if it is:
/// `InvalidTranscriptAggregate` where the field has no domain for the
/// shares; else the error of the first update transcript that does not
/// verify; else `InvalidShareIndex` for the first share index without a
/// key or without an update in some transcript.
pub open spec fn refresh_error(
    shares: nat,
    transcripts: IndexMap<UpdateTranscript>,
    keys: IndexMap<PublicKey>,
) -> Option<Error> {
    if shares > u32::MAX || domain_size(shares) > usize::MAX {
        Some(Error::InvalidTranscriptAggregate)
    } else {
        match first_update_failure(transcripts.spec_values(), keys, domain_size(shares), 0) {
            Some(e) => Some(e),
            None => match first_unserved_index(shares, transcripts.spec_values(), keys, 0) {
                Some(index) => Some(Error::InvalidShareIndex(index)),
                None => None,
            },
        }
    }
}

/// A walk that finds no failure has passed every transcript.
pub proof fn lemma_no_update_failure(
    transcripts: Seq<UpdateTranscript>,
    keys: IndexMap<PublicKey>,
    size: nat,
    from: int,
)
    requires
        0 <= from,
    ensures
        first_update_failure(transcripts, keys, size, from) is None <==> forall|p: int|
            from <= p < transcripts.len() ==> update_check(
                #[trigger] transcripts[p],
                keys,
                size,
                0,
            ) is Ok,
    decreases transcripts.len() - from,
{
    if from < transcripts.len() {
        lemma_no_update_failure(transcripts, keys, size, from + 1);
        if first_update_failure(transcripts, keys, size, from) is None {
            assert forall|p: int| from <= p < transcripts.len() implies update_check(
                #[trigger] transcripts[p],
                keys,
                size,
                0,
            ) is Ok by {
                if p > from {
                }
            }
        }
    }
}

/// A walk that finds no unserved index has found every index served.
pub proof fn lemma_no_unserved_index(
    shares: nat,
    transcripts: Seq<UpdateTranscript>,
    keys: IndexMap<PublicKey>,
    from: int,
)
    requires
        0 <= from,
    ensures
        first_unserved_index(shares, transcripts, keys, from) is None <==> forall|j: int|
            from <= j < shares ==> #[trigger] keys.has(j as u32) && all_update(
                transcripts,
                j as u32,
            ),
    decreases shares - from,
{
    if from < shares {
        lemma_no_unserved_index(shares, transcripts, keys, from + 1);
        if first_unserved_index(shares, transcripts, keys, from) is None {
            assert forall|j: int| from <= j < shares implies #[trigger] keys.has(j as u32)
                && all_update(transcripts, j as u32) by {
                if j > from {
                }
            }
        } else {
            if keys.has(from as u32) && all_update(transcripts, from as u32) {
            } else {
                assert(from <= from < shares);
            }
        }
    }
}

/// A refresh is refused exactly where it does not go through.
pub proof fn lemma_refresh_error_or_accepts(
    shares: nat,
    transcripts: IndexMap<UpdateTranscript>,
    keys: IndexMap<PublicKey>,
)
    ensures
        refresh_error(shares, transcripts, keys) is None <==> refresh_accepts(
            shares,
            transcripts,
            keys,
        ),
{
    lemma_no_update_failure(transcripts.spec_values(), keys, domain_size(shares), 0);
    lemma_no_unserved_index(shares, transcripts.spec_values(), keys, 0);
}

/// The transcript `t` with every share replaced by the share with the
/// updates for its index added. Commitments and proof of knowledge stay.
pub open spec fn refreshed(t: TranscriptView, transcripts: Seq<UpdateTranscript>) -> TranscriptView {
    TranscriptView {
        coeffs: t.coeffs,
        shares: Seq::new(
            t.shares.len(),
            |j: int| updates_applied(t.shares[j], transcripts, j as u32, transcripts.len()),
        ),
        sigma: t.sigma,
    }
}

/// Whether a handover of a slot of `t` goes through with the share that
/// `new_share` is, and what the transcript is afterwards.
pub open spec fn handover_gives<T>(
    t: TranscriptView,
    transcript: HandoverTranscript,
    dk: nat,
    out: Result<PubliclyVerifiableSS<T>, Error>,
) -> bool {
    let index = transcript.share_index as int;
    if t.shares.len() > u32::MAX || domain_size(t.shares.len()) > usize::MAX {
        out matches Err(e) && e == Error::InvalidTranscriptAggregate
    } else if index >= t.shares.len() {
        out matches Err(e) && e == Error::InvalidShareIndex(transcript.share_index)
    } else if t.shares[index] != transcript.old_blinded_share@ {
        out matches Err(e) && e == Error::InvalidShareUpdate
    } else {
        let commitment = g1_fft(t.coeffs, domain_size(t.shares.len()))[index];
        if !share_matches(commitment, transcript.double_blinded_share@, transcript.challenge_response@) {
            out matches Err(e) && e == Error::InvalidShareUpdate
        } else if g2_scaled(transcript.new_blinding_commitment@, dk)
            != transcript.challenge_response@ {
            out matches Err(e) && e == Error::ValidatorPublicKeyMismatch
        } else if dk == 0 {
            out matches Err(e) && e == Error::ArithmeticError
        } else {
            &&& out matches Ok(after)
            &&& after@ == (TranscriptView {
                coeffs: t.coeffs,
                shares: t.shares.update(index, unblinded(transcript.double_blinded_share@, dk)),
                sigma: t.sigma,
            })
        }
    }
}

impl<T: Aggregate> PubliclyVerifiableSS<T> {
    /// The blinded share of a share index, under the public key of the key
    /// pair; `InvalidShareIndex` where the aggregate holds no such share.
    pub fn get_blinded_key_share(&self, validator_keypair: &Keypair, share_index: u32) -> (out: Result<
        UpdatableBlindedKeyShare,
        Error,
    >)
        ensures
            match out {
                Ok(share) => {
                    &&& share_index < self@.shares.len()
                    &&& share.0.blinded_key_share@ == self@.shares[share_index as int]
                    &&& share.0.validator_public_key@ == public_key_of(validator_keypair@)
                },
                Err(e) => share_index >= self@.shares.len() && e == Error::InvalidShareIndex(
                    share_index,
                ),
            },
    {
        if share_index as usize >= self.shares.len() {
            return Err(Error::InvalidShareIndex(share_index));
        }
        assert(self@.shares[share_index as int] == self.shares@[share_index as int]@);
        Ok(
            UpdatableBlindedKeyShare(
                BlindedKeyShare {
                    validator_public_key: validator_keypair.public_key().encryption_key,
                    blinded_key_share: self.shares[share_index as usize].clone(),
                },
            ),
        )
    }

    /// The blinded share of a validator, under the validator's public key;
    /// `InvalidShareIndex` where the aggregate holds no such share.
    pub fn get_share_for_validator(&self, validator: &Validator) -> (out: Result<BlindedKeyShare, Error>)
        ensures
            match out {
                Ok(share) => {
                    &&& validator.share_index < self@.shares.len()
                    &&& share.blinded_key_share@ == self@.shares[validator.share_index as int]
                    &&& share.validator_public_key@ == validator.public_key@
                },
                Err(e) => validator.share_index >= self@.shares.len() && e
                    == Error::InvalidShareIndex(validator.share_index),
            },
    {
        if validator.share_index as usize >= self.shares.len() {
            return Err(Error::InvalidShareIndex(validator.share_index));
        }
        assert(self@.shares[validator.share_index as int]
            == self.shares@[validator.share_index as int]@);
        Ok(
            BlindedKeyShare {
                validator_public_key: validator.public_key.encryption_key.clone(),
                blinded_key_share: self.shares[validator.share_index as usize].clone(),
            },
        )
    }

    /// A decryption share of the simple variant for the share of
    /// `share_index`, unblinded with the key pair.
    pub fn create_decryption_share_simple(
        &self,
        ciphertext_header: &CiphertextHeader,
        aad: &[u8],
        validator_keypair: &Keypair,
        share_index: u32,
    ) -> (out: Result<DecryptionShareSimple, Error>)
        ensures
            match out {
                Ok(share) => {
                    &&& share_index < self@.shares.len()
                    &&& validator_keypair@ != 0
                    &&& header_verifies(ciphertext_header@, aad@)
                    &&& share@ == simple_share_of(
                        ciphertext_header.commitment@,
                        unblinded(self@.shares[share_index as int], validator_keypair@),
                        validator_keypair@,
                    )
                },
                Err(e) => if share_index >= self@.shares.len() {
                    e == Error::InvalidShareIndex(share_index)
                } else if validator_keypair@ == 0 {
                    e == Error::ArithmeticError
                } else {
                    e == Error::CiphertextVerificationFailed && !header_verifies(
                        ciphertext_header@,
                        aad@,
                    )
                },
            },
    {
        match self.get_blinded_key_share(validator_keypair, share_index) {
            Ok(share) => share.create_decryption_share_simple(
                ciphertext_header,
                aad,
                validator_keypair,
            ),
            Err(e) => Err(e),
        }
    }

    /// A decryption share of the precomputed variant for the share of
    /// `share_index`, for the selected participants whose domain points the
    /// map holds.
    pub fn create_decryption_share_precomputed(
        &self,
        ciphertext_header: &CiphertextHeader,
        aad: &[u8],
        validator_keypair: &Keypair,
        share_index: u32,
        domain_points: &IndexMap<Scalar>,
    ) -> (out: Result<DecryptionSharePrecomputed, Error>)
        ensures
            match out {
                Ok(share) => {
                    &&& share_index < self@.shares.len()
                    &&& domain_points.has(share_index)
                    &&& validator_keypair@ != 0
                    &&& header_verifies(ciphertext_header@, aad@)
                    &&& share@ == precomputed_share_of(
                        share_index,
                        ciphertext_header.commitment@,
                        unblinded(self@.shares[share_index as int], validator_keypair@),
                        validator_keypair@,
                        lagrange_coefficient(
                            scalar_views(domain_points.spec_values()),
                            position_of(domain_points.spec_keys(), share_index),
                            0,
                        ),
                    )
                },
                Err(e) => if share_index >= self@.shares.len() {
                    e == Error::InvalidShareIndex(share_index)
                } else if !domain_points.has(share_index) {
                    e == Error::InvalidShareIndex(share_index)
                } else if validator_keypair@ == 0 {
                    e == Error::ArithmeticError
                } else {
                    e == Error::CiphertextVerificationFailed && !header_verifies(
                        ciphertext_header@,
                        aad@,
                    )
                },
            },
    {
        match self.get_blinded_key_share(validator_keypair, share_index) {
            Ok(share) => share.create_decryption_share_precomputed(
                ciphertext_header,
                aad,
                validator_keypair,
                share_index,
                domain_points,
            ),
            Err(e) => Err(e),
        }
    }

    /// The aggregate after a refresh: every update transcript is verified,
    /// and every share takes the updates for its index, in the order of the
    /// producers' share indices. Commitments and proof of knowledge stay.
    pub fn refresh(
        &self,
        update_transcripts: &IndexMap<UpdateTranscript>,
        validator_keys_map: &IndexMap<PublicKey>,
    ) -> (out: Result<Self, Error>)
        ensures
            match out {
                Ok(after) => {
                    &&& refresh_error(self@.shares.len(), *update_transcripts, *validator_keys_map)
                        is None
                    &&& refresh_accepts(
                        self@.shares.len(),
                        *update_transcripts,
                        *validator_keys_map,
                    )
                    &&& after@ == refreshed(self@, update_transcripts.spec_values())
                },
                Err(e) => {
                    &&& refresh_error(self@.shares.len(), *update_transcripts, *validator_keys_map)
                        == Some(e)
                    &&& !refresh_accepts(
                        self@.shares.len(),
                        *update_transcripts,
                        *validator_keys_map,
                    )
                },
            },
    {
        let num_shares = self.shares.len();
        proof {
            lemma_refresh_error_or_accepts(
                self@.shares.len(),
                *update_transcripts,
                *validator_keys_map,
            );
        }
        let size = match domain_size_for_len(num_shares) {
            Some(size) => size,
            None => {
                return Err(Error::InvalidTranscriptAggregate);
            },
        };
        let ghost transcripts = update_transcripts.spec_values();
        let count = update_transcripts.len();
        let mut p: usize = 0;
        while p < count
            invariant
                p <= count == transcripts.len(),
                transcripts == update_transcripts.spec_values(),
                update_transcripts.ordered(),
                domain_order(size as nat),
                size == domain_size(num_shares as nat),
                num_shares == self@.shares.len(),
                num_shares <= u32::MAX,
                domain_size(num_shares as nat) <= usize::MAX,
                refresh_error(self@.shares.len(), *update_transcripts, *validator_keys_map) is None
                    <==> refresh_accepts(
                    self@.shares.len(),
                    *update_transcripts,
                    *validator_keys_map,
                ),
                first_update_failure(transcripts, *validator_keys_map, size as nat, 0)
                    == first_update_failure(transcripts, *validator_keys_map, size as nat, p as int),
            decreases count - p,
        {
            let update_transcript = update_transcripts.value_at(p);
            assert(first_update_failure(transcripts, *validator_keys_map, size as nat, p as int)
                == match update_check(transcripts[p as int], *validator_keys_map, size as nat, 0) {
                Err(e) => Some(e),
                Ok(_) => first_update_failure(
                    transcripts,
                    *validator_keys_map,
                    size as nat,
                    p + 1,
                ),
            });
            match update_transcript.verify_refresh(validator_keys_map, size) {
                Ok(_) => {},
                Err(e) => {
                    return Err(e);
                },
            }
            p += 1;
        }
        let mut updated_blinded_shares: Vec<G2Point> = Vec::new();
        let mut index: usize = 0;
        while index < num_shares
            invariant
                index <= num_shares == self.shares@.len(),
                num_shares <= u32::MAX,
                transcripts == update_transcripts.spec_values(),
                updated_blinded_shares@.len() == index,
                num_shares == self@.shares.len(),
                domain_size(num_shares as nat) <= usize::MAX,
                refresh_error(self@.shares.len(), *update_transcripts, *validator_keys_map) is None
                    <==> refresh_accepts(
                    self@.shares.len(),
                    *update_transcripts,
                    *validator_keys_map,
                ),
                size == domain_size(num_shares as nat),
                first_update_failure(transcripts, *validator_keys_map, size as nat, 0) is None,
                first_unserved_index(num_shares as nat, transcripts, *validator_keys_map, 0)
                    == first_unserved_index(
                    num_shares as nat,
                    transcripts,
                    *validator_keys_map,
                    index as int,
                ),
                forall|j: int|
                    0 <= j < index ==> (#[trigger] updated_blinded_shares@[j])@ == updates_applied(
                        self.shares@[j]@,
                        transcripts,
                        j as u32,
                        transcripts.len(),
                    ),
            decreases num_shares - index,
        {
            assert(first_unserved_index(
                num_shares as nat,
                transcripts,
                *validator_keys_map,
                index as int,
            ) == if !validator_keys_map.has(index as u32) || !all_update(transcripts, index as u32) {
                Some(index as u32)
            } else {
                first_unserved_index(
                    num_shares as nat,
                    transcripts,
                    *validator_keys_map,
                    index + 1,
                )
            });
            let key = match validator_keys_map.get(index as u32) {
                Some(key) => key,
                None => {
                    assert(!validator_keys_map.has(index as u32));
                    return Err(Error::InvalidShareIndex(index as u32));
                },
            };
            let blinded_key_share = BlindedKeyShare {
                blinded_key_share: self.shares[index].clone(),
                validator_public_key: key.encryption_key.clone(),
            };
            let applied = UpdatableBlindedKeyShare(blinded_key_share).apply_share_updates(
                update_transcripts,
                index as u32,
            );
            match applied {
                Ok(updated_share) => {
                    updated_blinded_shares.push(updated_share.0.blinded_key_share);
                },
                Err(e) => {
                    assert(!all_update(transcripts, index as u32));
                    assert(validator_keys_map.has(index as u32));
                    return Err(e);
                },
            }
            index += 1;
        }
        let after = PubliclyVerifiableSS {
            coeffs: clone_g1_points(&self.coeffs),
            shares: updated_blinded_shares,
            sigma: self.sigma.clone(),
            phantom: PhantomData,
        };
        assert(after@.shares =~= refreshed(self@, transcripts).shares) by {
            assert forall|j: int| 0 <= j < num_shares implies after@.shares[j] == refreshed(
                self@,
                transcripts,
            ).shares[j] by {
                assert(after@.shares[j] == updated_blinded_shares@[j]@);
                assert(self@.shares[j] == self.shares@[j]@);
            }
        }
        Ok(after)
    }

    /// The aggregate after a handover: the transcript must be for the
    /// slot's current share; the outgoing validator's key pair finalizes it;
    /// the slot's share is replaced. Commitments, the other shares and the
    /// proof of knowledge stay.
    pub fn handover(&self, handover_transcript: &HandoverTranscript, validator_keypair: &Keypair) -> (out:
        Result<Self, Error>)
        ensures
            handover_gives(self@, *handover_transcript, validator_keypair@, out),
    {
        let num_shares = self.shares.len();
        let size = match domain_size_for_len(num_shares) {
            Some(size) => size,
            None => {
                return Err(Error::InvalidTranscriptAggregate);
            },
        };
        let share_index = handover_transcript.share_index as usize;
        if share_index >= num_shares {
            return Err(Error::InvalidShareIndex(handover_transcript.share_index));
        }
        assert(self@.shares[share_index as int] == self.shares@[share_index as int]@);
        if !self.shares[share_index].equals(&handover_transcript.old_blinded_share) {
            return Err(Error::InvalidShareUpdate);
        }
        let share_commitments = get_share_commitments_from_poly_commitments(&self.coeffs, size);
        assert(g1_views(share_commitments@)[share_index as int]
            == share_commitments@[share_index as int]@);
        let share_commitment = ShareCommitment(share_commitments[share_index].clone());
        let new_blind_share = match handover_transcript.finalize(validator_keypair, &share_commitment) {
            Ok(share) => share,
            Err(e) => {
                return Err(e);
            },
        };
        let mut new_shares = clone_g2_points(&self.shares);
        let ghost copied = g2_views(new_shares@);
        new_shares.set(share_index, new_blind_share.blinded_key_share);
        let after = PubliclyVerifiableSS {
            coeffs: clone_g1_points(&self.coeffs),
            shares: new_shares,
            sigma: self.sigma.clone(),
            phantom: PhantomData,
        };
        assert(after@.shares =~= self@.shares.update(
            share_index as int,
            unblinded(handover_transcript.double_blinded_share@, validator_keypair@),
        )) by {
            assert forall|j: int| 0 <= j < num_shares implies after@.shares[j]
                == self@.shares.update(
                share_index as int,
                unblinded(handover_transcript.double_blinded_share@, validator_keypair@),
            )[j] by {
                assert(after@.shares[j] == new_shares@[j]@);
                if j != share_index {
                    assert(copied[j] == self@.shares[j]);
                }
            }
        }
        Ok(after)
    }

    /// The aggregate after a handover; see [`Self::handover`].
    pub fn finalize_handover(
        &self,
        handover_transcript: &HandoverTranscript,
        validator_keypair: &Keypair,
    ) -> (out: Result<Self, Error>)
        ensures
            handover_gives(self@, *handover_transcript, validator_keypair@, out),
    {
        self.handover(handover_transcript, validator_keypair)
    }
}

/// A refresh leaves the commitments and the proof of knowledge as they
/// are, and with them the group public key; it keeps the number of shares.
pub proof fn lemma_refresh_keeps_commitments(t: TranscriptView, transcripts: Seq<UpdateTranscript>)
    ensures
        refreshed(t, transcripts).coeffs == t.coeffs,
        refreshed(t, transcripts).sigma == t.sigma,
        refreshed(t, transcripts).shares.len() == t.shares.len(),
{
}

/// A refresh with no update transcripts changes nothing.
pub proof fn lemma_refresh_with_no_updates(t: TranscriptView)
    ensures
        refreshed(t, Seq::<UpdateTranscript>::empty()) == t,
{
    assert(refreshed(t, Seq::<UpdateTranscript>::empty()).shares =~= t.shares);
}

/// A handover that goes through changes the share of its slot only: the
/// commitments, the proof of knowledge and every other share stay.
pub proof fn lemma_handover_changes_one_slot<T>(
    t: TranscriptView,
    transcript: HandoverTranscript,
    dk: nat,
    out: Result<PubliclyVerifiableSS<T>, Error>,
)
    requires
        handover_gives(t, transcript, dk, out),
        out is Ok,
    ensures
        out->Ok_0@.coeffs == t.coeffs,
        out->Ok_0@.sigma == t.sigma,
        out->Ok_0@.shares.len() == t.shares.len(),
        forall|j: int|
            0 <= j < t.shares.len() && j != transcript.share_index ==> out->Ok_0@.shares[j]
                == t.shares[j],
        out->Ok_0@.shares[transcript.share_index as int] == unblinded(
            transcript.double_blinded_share@,
            dk,
        ),
{
}

} // verus!
