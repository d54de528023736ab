//! Key material: the group public key, share commitments, and the key
//! shares in their blinded and unblinded forms.

use vstd::prelude::*;
use crate::ciphertext::{header_verifies, CiphertextHeader};
use crate::curve::{g2_scaled, G1Point, G2Point};
use crate::decryption::{
    precomputed_share_of,
    simple_share_of,
    DecryptionSharePrecomputed,
    DecryptionShareSimple,
};
use crate::error::Error;
use crate::index_map::{position_of, IndexMap};
use crate::poly::{lagrange_coefficient, prepare_combine_simple};
use crate::scalar::{finv, scalar_views, Scalar};
use crate::validator::Keypair;

verus! {

/// The public key of the group: the commitment to the shared secret.
#[derive(Debug, PartialEq, Eq)]
pub struct DkgPublicKey(pub G1Point);

impl View for DkgPublicKey {
    type V = Seq<u8>;

    open spec fn view(&self) -> Seq<u8> {
        self.0@
    }
}

impl Clone for DkgPublicKey {
    fn clone(&self) -> (out: Self)
        ensures
            out@ == self@,
    {
        DkgPublicKey(self.0.clone())
    }
}

/// The commitment to one validator's share: the evaluation, in the first
/// group, of the committed polynomial at the validator's domain point.
#[derive(Debug, PartialEq, Eq)]
pub struct ShareCommitment(pub G1Point);

impl View for ShareCommitment {
    type V = Seq<u8>;

    open spec fn view(&self) -> Seq<u8> {
        self.0@
    }
}

impl Clone for ShareCommitment {
    fn clone(&self) -> (out: Self)
        ensures
            out@ == self@,
    {
        ShareCommitment(self.0.clone())
    }
}

/// A validator's share with the blinding removed. It exists only while a
/// decryption share is made.
#[derive(Debug, PartialEq, Eq)]
pub struct PrivateKeyShare(pub G2Point);

impl View for PrivateKeyShare {
    type V = Seq<u8>;

    open spec fn view(&self) -> Seq<u8> {
        self.0@
    }
}

impl PrivateKeyShare {
    /// Overwrites the share with zeros and drops it.
    pub fn zeroize(self) {
        self.0.zeroize()
    }
}

impl Clone for PrivateKeyShare {
    fn clone(&self) -> (out: Self)
        ensures
            out@ == self@,
    {
        PrivateKeyShare(self.0.clone())
    }
}

/// A validator's share as an aggregate holds it: multiplied by the
/// validator's decryption key.
#[derive(Debug, PartialEq, Eq)]
pub struct BlindedKeyShare {
    /// The public key of the validator that can unblind the share.
    pub validator_public_key: G2Point,
    /// The blinded share.
    pub blinded_key_share: G2Point,
}

impl Clone for BlindedKeyShare {
    fn clone(&self) -> (out: Self)
        ensures
            out.validator_public_key@ == self.validator_public_key@,
            out.blinded_key_share@ == self.blinded_key_share@,
    {
        BlindedKeyShare {
            validator_public_key: self.validator_public_key.clone(),
            blinded_key_share: self.blinded_key_share.clone(),
        }
    }
}

/// The encoding of the share `blinded` with the blinding of the decryption
/// key `dk` removed.
pub open spec fn unblinded(blinded: Seq<u8>, dk: nat) -> Seq<u8> {
    g2_scaled(blinded, finv(dk))
}

impl BlindedKeyShare {
    /// Removes the blinding: the share multiplied by the inverse of the
    /// decryption key. `ArithmeticError` where the key is zero.
    pub fn unblind(&self, validator_keypair: &Keypair) -> (out: Result<PrivateKeyShare, Error>)
        ensures
            match out {
                Ok(z) => validator_keypair@ != 0 && z@ == unblinded(
                    self.blinded_key_share@,
                    validator_keypair@,
                ),
                Err(e) => validator_keypair@ == 0 && e == Error::ArithmeticError,
            },
    {
        match validator_keypair.decryption_key.inverse() {
            Some(factor) => Ok(PrivateKeyShare(self.blinded_key_share.mul(&factor))),
            None => Err(Error::ArithmeticError),
        }
    }

    /// The validator's decryption share in the simple variant.
    pub fn create_decryption_share_simple(
        &self,
        ciphertext_header: &CiphertextHeader,
        aad: &[u8],
        validator_keypair: &Keypair,
    ) -> (out: Result<DecryptionShareSimple, Error>)
        ensures
            match out {
                Ok(share) => validator_keypair@ != 0 && header_verifies(ciphertext_header@, aad@)
                    && share@ == simple_share_of(
                    ciphertext_header.commitment@,
                    unblinded(self.blinded_key_share@, validator_keypair@),
                    validator_keypair@,
                ),
                Err(e) => if validator_keypair@ == 0 {
                    e == Error::ArithmeticError
                } else {
                    e == Error::CiphertextVerificationFailed && !header_verifies(
                        ciphertext_header@,
                        aad@,
                    )
                },
            },
    {
        match self.unblind(validator_keypair) {
            Ok(private_key_share) => {
                let out = DecryptionShareSimple::create(
                    &validator_keypair.decryption_key,
                    &private_key_share,
                    ciphertext_header,
                    aad,
                );
                private_key_share.zeroize();
                out
            },
            Err(e) => Err(e),
        }
    }

    /// The validator's decryption share in the precomputed variant: the
    /// Lagrange coefficient of the validator's point, over the points of the
    /// selected participants taken in the order of their share indices, is
    /// folded into the share.
    pub fn create_decryption_share_precomputed(
        &self,
        ciphertext_header: &CiphertextHeader,
        aad: &[u8],
        validator_keypair: &Keypair,
        share_index: u32,
        domain_points_map: &IndexMap<Scalar>,
    ) -> (out: Result<DecryptionSharePrecomputed, Error>)
        ensures
            match out {
                Ok(share) => {
                    &&& domain_points_map.has(share_index)
                    &&& validator_keypair@ != 0
                    &&& header_verifies(ciphertext_header@, aad@)
                    &&& share@ == precomputed_share_of(
                        share_index,
                        ciphertext_header.commitment@,
                        unblinded(self.blinded_key_share@, validator_keypair@),
                        validator_keypair@,
                        lagrange_coefficient(
                            scalar_views(domain_points_map.spec_values()),
                            position_of(domain_points_map.spec_keys(), share_index),
                            0,
                        ),
                    )
                },
                Err(e) => if !domain_points_map.has(share_index) {
                    e == Error::InvalidShareIndex(share_index)
                } else if validator_keypair@ == 0 {
                    e == Error::ArithmeticError
                } else {
                    e == Error::CiphertextVerificationFailed && !header_verifies(
                        ciphertext_header@,
                        aad@,
                    )
                },
            },
    {
        let points = collect_points(domain_points_map);
        let lagrange_coeffs = prepare_combine_simple(points.as_slice());
        let at = match domain_points_map.position(share_index) {
            Some(at) => at,
            None => {
                return Err(Error::InvalidShareIndex(share_index));
            },
        };
        assert(domain_points_map.spec_keys().contains(share_index));
        assert(scalar_views(lagrange_coeffs@)[at as int] == lagrange_coeffs@[at as int]@);
        let lagrange_coeff = &lagrange_coeffs[at];
        match self.unblind(validator_keypair) {
            Ok(private_key_share) => {
                let out = DecryptionSharePrecomputed::create(
                    share_index,
                    &validator_keypair.decryption_key,
                    &private_key_share,
                    ciphertext_header,
                    aad,
                    lagrange_coeff,
                );
                private_key_share.zeroize();
                out
            },
            Err(e) => Err(e),
        }
    }
}

/// The values of a map of scalars, in the order of their indices.
pub fn collect_points(map: &IndexMap<Scalar>) -> (out: Vec<Scalar>)
    ensures
        scalar_views(out@) == scalar_views(map.spec_values()),
        out@.len() == map.spec_keys().len(),
{
    let n = map.len();
    let mut out: Vec<Scalar> = Vec::new();
    let mut i: usize = 0;
    while i < n
        invariant
            i <= n == map.spec_keys().len(),
            map.ordered(),
            out@.len() == i,
            forall|k: int| 0 <= k < i ==> (#[trigger] out@[k])@ == map.spec_values()[k]@,
        decreases n - i,
    {
        out.push(map.value_at(i).clone());
        i += 1;
    }
    assert(scalar_views(out@) =~= scalar_views(map.spec_values()));
    out
}

} // verus!
