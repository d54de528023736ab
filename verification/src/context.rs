//! The contexts of a dealt setup: what everyone knows of each participant,
//! and what each participant holds for itself.

use vstd::prelude::*;
use crate::ciphertext::{header_verifies, CiphertextHeader};
use crate::curve::{G1Point, G2Point};
use crate::decryption::{
    precomputed_share_of,
    simple_share_of,
    DecryptionSharePrecomputed,
    DecryptionShareSimple,
};
use crate::error::Error;
use crate::key_share::{BlindedKeyShare, PrivateKeyShare, ShareCommitment};
use crate::poly::{lagrange_coefficient, prepare_combine_simple};
use crate::scalar::Scalar;
use crate::validator::PublicKey;

verus! {

/// What everyone knows of a participant in the fast variant.
#[derive(Debug)]
pub struct PublicDecryptionContextFast {
    pub domain: Scalar,
    pub public_key: ShareCommitment,
    pub blinded_key_share: BlindedKeyShare,
    /// This participant's part of the numerator of the Lagrange basis at zero.
    pub lagrange_n_0: Scalar,
}

impl Clone for PublicDecryptionContextFast {
    fn clone(&self) -> (out: Self)
        ensures
            out.domain@ == self.domain@,
            out.public_key@ == self.public_key@,
            out.blinded_key_share.blinded_key_share@ == self.blinded_key_share.blinded_key_share@,
            out.blinded_key_share.validator_public_key@
                == self.blinded_key_share.validator_public_key@,
            out.lagrange_n_0@ == self.lagrange_n_0@,
    {
        PublicDecryptionContextFast {
            domain: self.domain.clone(),
            public_key: self.public_key.clone(),
            blinded_key_share: self.blinded_key_share.clone(),
            lagrange_n_0: self.lagrange_n_0.clone(),
        }
    }
}

/// What a participant holds for itself in the fast variant.
#[derive(Debug)]
pub struct PrivateDecryptionContextFast {
    pub index: usize,
    pub b: Scalar,
    pub b_inv: Scalar,
    pub private_key_share: PrivateKeyShare,
    pub public_decryption_contexts: Vec<PublicDecryptionContextFast>,
}

impl PrivateDecryptionContextFast {
    /// The participant's decryption share: the ciphertext's commitment
    /// multiplied by the inverse of the blinding factor.
    pub fn create_share(&self, ciphertext: &crate::ciphertext::Ciphertext) -> (out:
        crate::fast::DecryptionShareFast)
        ensures
            out.decrypter_index == self.index,
            out.decryption_share@ == crate::curve::g1_scaled(ciphertext.commitment@, self.b_inv@),
    {
        crate::fast::DecryptionShareFast {
            decrypter_index: self.index,
            decryption_share: ciphertext.commitment.mul(&self.b_inv),
        }
    }
}

/// What everyone knows of a participant in the simple variant.
#[derive(Debug)]
pub struct PublicDecryptionContextSimple {
    pub domain: Scalar,
    pub share_commitment: ShareCommitment,
    pub blinded_key_share: BlindedKeyShare,
    pub h: G2Point,
    pub validator_public_key: PublicKey,
}

impl Clone for PublicDecryptionContextSimple {
    fn clone(&self) -> (out: Self)
        ensures
            out.domain@ == self.domain@,
            out.share_commitment@ == self.share_commitment@,
            out.blinded_key_share.blinded_key_share@ == self.blinded_key_share.blinded_key_share@,
            out.blinded_key_share.validator_public_key@
                == self.blinded_key_share.validator_public_key@,
            out.h@ == self.h@,
            out.validator_public_key@ == self.validator_public_key@,
    {
        PublicDecryptionContextSimple {
            domain: self.domain.clone(),
            share_commitment: self.share_commitment.clone(),
            blinded_key_share: self.blinded_key_share.clone(),
            h: self.h.clone(),
            validator_public_key: self.validator_public_key.clone(),
        }
    }
}

/// The blinding factor of a participant, its inverse, and the generators.
#[derive(Debug)]
pub struct SetupParams {
    pub b: Scalar,
    pub b_inv: Scalar,
    pub g: G1Point,
    pub h: G2Point,
}

/// What a participant holds for itself in the simple variant.
#[derive(Debug)]
pub struct PrivateDecryptionContextSimple {
    pub index: usize,
    pub setup_params: SetupParams,
    pub private_key_share: PrivateKeyShare,
    pub public_decryption_contexts: Vec<PublicDecryptionContextSimple>,
}

/// The domain points of the selected participants, in the order selected.
pub open spec fn selected_points(
    contexts: Seq<PublicDecryptionContextSimple>,
    selected: Seq<usize>,
) -> Seq<nat> {
    Seq::new(selected.len(), |k: int| contexts[selected[k] as int].domain@)
}

impl PrivateDecryptionContextSimple {
    /// The participant's decryption share in the simple variant.
    pub fn create_share(&self, ciphertext_header: &CiphertextHeader, aad: &[u8]) -> (out: Result<
        DecryptionShareSimple,
        Error,
    >)
        ensures
            match out {
                Ok(share) => header_verifies(ciphertext_header@, aad@) && self.setup_params.b@ != 0
                    && share@ == simple_share_of(
                    ciphertext_header.commitment@,
                    self.private_key_share@,
                    self.setup_params.b@,
                ),
                Err(e) => if !header_verifies(ciphertext_header@, aad@) {
                    e == Error::CiphertextVerificationFailed
                } else {
                    e == Error::ArithmeticError && self.setup_params.b@ == 0
                },
            },
    {
        DecryptionShareSimple::create(
            &self.setup_params.b,
            &self.private_key_share,
            ciphertext_header,
            aad,
        )
    }

    /// The participant's decryption share in the precomputed variant, for
    /// the selected participants: the coefficient is the one at the
    /// participant's own position in the selection.
    pub fn create_share_precomputed(
        &self,
        ciphertext_header: &CiphertextHeader,
        aad: &[u8],
        selected_participants: &[usize],
    ) -> (out: Result<DecryptionSharePrecomputed, Error>)
        requires
            self.index < selected_participants@.len(),
            self.index <= u32::MAX,
            forall|k: int|
                0 <= k < selected_participants@.len() ==> (#[trigger] selected_participants@[k])
                    < self.public_decryption_contexts@.len(),
        ensures
            match out {
                Ok(share) => header_verifies(ciphertext_header@, aad@) && self.setup_params.b@ != 0
                    && share@ == precomputed_share_of(
                    self.index as u32,
                    ciphertext_header.commitment@,
                    self.private_key_share@,
                    self.setup_params.b@,
                    lagrange_coefficient(
                        selected_points(self.public_decryption_contexts@, selected_participants@),
                        self.index as int,
                        0,
                    ),
                ),
                Err(e) => if !header_verifies(ciphertext_header@, aad@) {
                    e == Error::CiphertextVerificationFailed
                } else {
                    e == Error::ArithmeticError && self.setup_params.b@ == 0
                },
            },
    {
        let ghost points = selected_points(self.public_decryption_contexts@, selected_participants@);
        let mut selected_domain_points: Vec<Scalar> = Vec::new();
        let mut k: usize = 0;
        while k < selected_participants.len()
            invariant
                k <= selected_participants@.len(),
                selected_domain_points@.len() == k,
                points == selected_points(self.public_decryption_contexts@, selected_participants@),
                forall|j: int|
                    0 <= j < selected_participants@.len() ==> (#[trigger] selected_participants@[j])
                        < self.public_decryption_contexts@.len(),
                forall|j: int| 0 <= j < k ==> (#[trigger] selected_domain_points@[j])@ == points[j],
            decreases selected_participants@.len() - k,
        {
            let i = selected_participants[k];
            selected_domain_points.push(self.public_decryption_contexts[i].domain.clone());
            k += 1;
        }
        assert(crate::scalar::scalar_views(selected_domain_points@) =~= points);
        let lagrange_coeffs = prepare_combine_simple(selected_domain_points.as_slice());
        assert(crate::scalar::scalar_views(lagrange_coeffs@)[self.index as int]
            == lagrange_coeffs@[self.index as int]@);
        DecryptionSharePrecomputed::create(
            self.index as u32,
            &self.setup_params.b,
            &self.private_key_share,
            ciphertext_header,
            aad,
            &lagrange_coeffs[self.index],
        )
    }
}

} // verus!
