//! Decryption shares, in the simple and the precomputed variant, each with
//! the checksum that proves custody of the validator's decryption key.

use vstd::prelude::*;
use crate::ciphertext::{header_verifies, Ciphertext, CiphertextHeader};
use crate::context::PublicDecryptionContextSimple;
use crate::curve::{g1_scaled, g2_generator, pairing, pairing_of, G1Point, G2Point, GtElement};
use crate::error::Error;
use crate::key_share::PrivateKeyShare;
use crate::scalar::{finv, Scalar};

verus! {

/// The proof that a decryption share was made with the validator's
/// decryption key: the ciphertext's commitment multiplied by the key's
/// inverse.
#[derive(Debug, PartialEq, Eq)]
pub struct ValidatorShareChecksum {
    pub checksum: G1Point,
}

impl View for ValidatorShareChecksum {
    type V = Seq<u8>;

    open spec fn view(&self) -> Seq<u8> {
        self.checksum@
    }
}

impl Clone for ValidatorShareChecksum {
    fn clone(&self) -> (out: Self)
        ensures
            out@ == self@,
    {
        ValidatorShareChecksum { checksum: self.checksum.clone() }
    }
}

/// The checksum of the decryption key `dk` for the commitment `commitment`.
pub open spec fn checksum_of(commitment: Seq<u8>, dk: nat) -> Seq<u8> {
    g1_scaled(commitment, finv(dk))
}

/// Whether a share and its checksum verify against the validator's blinded
/// share and public key: the share is the pairing of the checksum with the
/// blinded share, and the checksum pairs with the public key as the
/// commitment does with the generator.
pub open spec fn checksum_verifies(
    checksum: Seq<u8>,
    decryption_share: Seq<u8>,
    share_aggregate: Seq<u8>,
    validator_public_key: Seq<u8>,
    commitment: Seq<u8>,
) -> bool {
    &&& decryption_share == pairing_of(checksum, share_aggregate)
    &&& pairing_of(checksum, validator_public_key) == pairing_of(commitment, g2_generator())
}

impl ValidatorShareChecksum {
    /// The checksum of a decryption key for a ciphertext;
    /// `ArithmeticError` where the key is zero.
    pub fn new(validator_decryption_key: &Scalar, ciphertext_header: &CiphertextHeader) -> (out:
        Result<ValidatorShareChecksum, Error>)
        ensures
            match out {
                Ok(c) => validator_decryption_key@ != 0 && c@ == checksum_of(
                    ciphertext_header.commitment@,
                    validator_decryption_key@,
                ),
                Err(e) => validator_decryption_key@ == 0 && e == Error::ArithmeticError,
            },
    {
        match validator_decryption_key.inverse() {
            Some(inverse) => Ok(
                ValidatorShareChecksum { checksum: ciphertext_header.commitment.mul(&inverse) },
            ),
            None => Err(Error::ArithmeticError),
        }
    }

    /// Whether the checksum verifies a decryption share.
    pub fn verify(
        &self,
        decryption_share: &GtElement,
        share_aggregate: &G2Point,
        validator_public_key: &G2Point,
        ciphertext: &Ciphertext,
    ) -> (ok: bool)
        ensures
            ok == checksum_verifies(
                self@,
                decryption_share@,
                share_aggregate@,
                validator_public_key@,
                ciphertext.commitment@,
            ),
    {
        let expected = pairing(&self.checksum, share_aggregate);
        if !decryption_share.equals(&expected) {
            return false;
        }
        let left = pairing(&self.checksum, validator_public_key);
        let right = pairing(&ciphertext.commitment, &G2Point::generator());
        left.equals(&right)
    }
}

/// What a simple decryption share is in contracts.
pub struct DecryptionShareSimpleView {
    pub decryption_share: Seq<u8>,
    pub checksum: Seq<u8>,
}

/// What a precomputed decryption share is in contracts.
pub struct DecryptionSharePrecomputedView {
    pub decrypter_index: u32,
    pub decryption_share: Seq<u8>,
    pub checksum: Seq<u8>,
}

/// The simple share of the private key share `z` for the commitment
/// `commitment`, with the checksum of the decryption key `dk`.
pub open spec fn simple_share_of(commitment: Seq<u8>, z: Seq<u8>, dk: nat) -> DecryptionShareSimpleView {
    DecryptionShareSimpleView {
        decryption_share: pairing_of(commitment, z),
        checksum: checksum_of(commitment, dk),
    }
}

/// The precomputed share of the private key share `z` for the commitment
/// `commitment` weighted by the Lagrange coefficient `coefficient`, with the
/// checksum of the decryption key `dk`.
pub open spec fn precomputed_share_of(
    index: u32,
    commitment: Seq<u8>,
    z: Seq<u8>,
    dk: nat,
    coefficient: nat,
) -> DecryptionSharePrecomputedView {
    DecryptionSharePrecomputedView {
        decrypter_index: index,
        decryption_share: pairing_of(g1_scaled(commitment, coefficient), z),
        checksum: checksum_of(commitment, dk),
    }
}

/// A decryption share of the simple variant: the client weights it with a
/// Lagrange coefficient when it combines.
#[derive(Debug, PartialEq, Eq)]
pub struct DecryptionShareSimple {
    pub decryption_share: GtElement,
    pub validator_checksum: ValidatorShareChecksum,
}

impl View for DecryptionShareSimple {
    type V = DecryptionShareSimpleView;

    open spec fn view(&self) -> DecryptionShareSimpleView {
        DecryptionShareSimpleView {
            decryption_share: self.decryption_share@,
            checksum: self.validator_checksum@,
        }
    }
}

impl Clone for DecryptionShareSimple {
    fn clone(&self) -> (out: Self)
        ensures
            out@ == self@,
    {
        DecryptionShareSimple {
            decryption_share: self.decryption_share.clone(),
            validator_checksum: self.validator_checksum.clone(),
        }
    }
}

impl DecryptionShareSimple {
    /// The share of a private key share for a ciphertext, after the
    /// ciphertext's header is checked against the associated data.
    pub fn create(
        validator_decryption_key: &Scalar,
        private_key_share: &PrivateKeyShare,
        ciphertext_header: &CiphertextHeader,
        aad: &[u8],
    ) -> (out: Result<DecryptionShareSimple, Error>)
        ensures
            match out {
                Ok(share) => header_verifies(ciphertext_header@, aad@) && validator_decryption_key@
                    != 0 && share@ == simple_share_of(
                    ciphertext_header.commitment@,
                    private_key_share@,
                    validator_decryption_key@,
                ),
                Err(e) => if !header_verifies(ciphertext_header@, aad@) {
                    e == Error::CiphertextVerificationFailed
                } else {
                    e == Error::ArithmeticError && validator_decryption_key@ == 0
                },
            },
    {
        match ciphertext_header.check(aad) {
            Ok(_) => {},
            Err(e) => {
                return Err(e);
            },
        }
        DecryptionShareSimple::create_unchecked(
            validator_decryption_key,
            private_key_share,
            ciphertext_header,
        )
    }

    /// The share of a private key share for a ciphertext whose header the
    /// caller has checked.
    pub fn create_unchecked(
        validator_decryption_key: &Scalar,
        private_key_share: &PrivateKeyShare,
        ciphertext_header: &CiphertextHeader,
    ) -> (out: Result<DecryptionShareSimple, Error>)
        ensures
            match out {
                Ok(share) => validator_decryption_key@ != 0 && share@ == simple_share_of(
                    ciphertext_header.commitment@,
                    private_key_share@,
                    validator_decryption_key@,
                ),
                Err(e) => e == Error::ArithmeticError && validator_decryption_key@ == 0,
            },
    {
        let decryption_share = pairing(&ciphertext_header.commitment, &private_key_share.0);
        match ValidatorShareChecksum::new(validator_decryption_key, ciphertext_header) {
            Ok(validator_checksum) => Ok(DecryptionShareSimple { decryption_share, validator_checksum }),
            Err(e) => Err(e),
        }
    }

    /// Whether the share verifies against the validator's blinded share and
    /// public key.
    pub fn verify(
        &self,
        share_aggregate: &G2Point,
        validator_public_key: &G2Point,
        ciphertext: &Ciphertext,
    ) -> (ok: bool)
        ensures
            ok == checksum_verifies(
                self@.checksum,
                self@.decryption_share,
                share_aggregate@,
                validator_public_key@,
                ciphertext.commitment@,
            ),
    {
        self.validator_checksum.verify(
            &self.decryption_share,
            share_aggregate,
            validator_public_key,
            ciphertext,
        )
    }
}

/// A decryption share of the precomputed variant: the Lagrange coefficient
/// of the validator among the selected participants is folded into it, so
/// the client combines by a plain product.
#[derive(Debug, PartialEq, Eq)]
pub struct DecryptionSharePrecomputed {
    pub decrypter_index: u32,
    pub decryption_share: GtElement,
    pub validator_checksum: ValidatorShareChecksum,
}

impl View for DecryptionSharePrecomputed {
    type V = DecryptionSharePrecomputedView;

    open spec fn view(&self) -> DecryptionSharePrecomputedView {
        DecryptionSharePrecomputedView {
            decrypter_index: self.decrypter_index,
            decryption_share: self.decryption_share@,
            checksum: self.validator_checksum@,
        }
    }
}

impl Clone for DecryptionSharePrecomputed {
    fn clone(&self) -> (out: Self)
        ensures
            out@ == self@,
    {
        DecryptionSharePrecomputed {
            decrypter_index: self.decrypter_index,
            decryption_share: self.decryption_share.clone(),
            validator_checksum: self.validator_checksum.clone(),
        }
    }
}

impl DecryptionSharePrecomputed {
    /// The share of a private key share for a ciphertext, weighted by a
    /// Lagrange coefficient, after the ciphertext's header is checked
    /// against the associated data.
    pub fn create(
        validator_index: u32,
        validator_decryption_key: &Scalar,
        private_key_share: &PrivateKeyShare,
        ciphertext_header: &CiphertextHeader,
        aad: &[u8],
        lagrange_coeff: &Scalar,
    ) -> (out: Result<DecryptionSharePrecomputed, Error>)
        ensures
            match out {
                Ok(share) => header_verifies(ciphertext_header@, aad@) && validator_decryption_key@
                    != 0 && share@ == precomputed_share_of(
                    validator_index,
                    ciphertext_header.commitment@,
                    private_key_share@,
                    validator_decryption_key@,
                    lagrange_coeff@,
                ),
                Err(e) => if !header_verifies(ciphertext_header@, aad@) {
                    e == Error::CiphertextVerificationFailed
                } else {
                    e == Error::ArithmeticError && validator_decryption_key@ == 0
                },
            },
    {
        match ciphertext_header.check(aad) {
            Ok(_) => {},
            Err(e) => {
                return Err(e);
            },
        }
        DecryptionSharePrecomputed::create_unchecked(
            validator_index,
            validator_decryption_key,
            private_key_share,
            ciphertext_header,
            lagrange_coeff,
        )
    }

    /// The weighted share of a private key share for a ciphertext whose
    /// header the caller has checked.
    pub fn create_unchecked(
        validator_index: u32,
        validator_decryption_key: &Scalar,
        private_key_share: &PrivateKeyShare,
        ciphertext_header: &CiphertextHeader,
        lagrange_coeff: &Scalar,
    ) -> (out: Result<DecryptionSharePrecomputed, Error>)
        ensures
            match out {
                Ok(share) => validator_decryption_key@ != 0 && share@ == precomputed_share_of(
                    validator_index,
                    ciphertext_header.commitment@,
                    private_key_share@,
                    validator_decryption_key@,
                    lagrange_coeff@,
                ),
                Err(e) => e == Error::ArithmeticError && validator_decryption_key@ == 0,
            },
    {
        let weighted_commitment = ciphertext_header.commitment.mul(lagrange_coeff);
        let decryption_share = pairing(&weighted_commitment, &private_key_share.0);
        match ValidatorShareChecksum::new(validator_decryption_key, ciphertext_header) {
            Ok(validator_checksum) => Ok(
                DecryptionSharePrecomputed {
                    decrypter_index: validator_index,
                    decryption_share,
                    validator_checksum,
                },
            ),
            Err(e) => Err(e),
        }
    }

    /// Whether the share verifies against the validator's blinded share and
    /// public key.
    pub fn verify(
        &self,
        share_aggregate: &G2Point,
        validator_public_key: &G2Point,
        ciphertext: &Ciphertext,
    ) -> (ok: bool)
        ensures
            ok == checksum_verifies(
                self@.checksum,
                self@.decryption_share,
                share_aggregate@,
                validator_public_key@,
                ciphertext.commitment@,
            ),
    {
        self.validator_checksum.verify(
            &self.decryption_share,
            share_aggregate,
            validator_public_key,
            ciphertext,
        )
    }
}

/// Whether the `i`-th share verifies against the `i`-th context.
pub open spec fn share_verifies_in_context(
    pub_contexts: Seq<PublicDecryptionContextSimple>,
    ciphertext: Ciphertext,
    decryption_shares: Seq<DecryptionShareSimple>,
    i: int,
) -> bool {
    checksum_verifies(
        decryption_shares[i]@.checksum,
        decryption_shares[i]@.decryption_share,
        pub_contexts[i].blinded_key_share.blinded_key_share@,
        pub_contexts[i].validator_public_key@,
        ciphertext.commitment@,
    )
}

/// Whether every share verifies against the context of its position. Shares
/// and contexts are paired in order, as far as both reach.
pub fn verify_decryption_shares_simple(
    pub_contexts: &Vec<PublicDecryptionContextSimple>,
    ciphertext: &Ciphertext,
    decryption_shares: &Vec<DecryptionShareSimple>,
) -> (ok: bool)
    ensures
        ok == (forall|i: int|
            0 <= i < pub_contexts@.len() && i < decryption_shares@.len()
                ==> share_verifies_in_context(pub_contexts@, *ciphertext, decryption_shares@, i)),
{
    let mut i: usize = 0;
    while i < pub_contexts.len() && i < decryption_shares.len()
        invariant
            forall|k: int|
                0 <= k < i ==> share_verifies_in_context(
                    pub_contexts@,
                    *ciphertext,
                    decryption_shares@,
                    k,
                ),
            i <= pub_contexts@.len(),
            i <= decryption_shares@.len(),
        decreases pub_contexts@.len() - i,
    {
        let is_valid = decryption_shares[i].verify(
            &pub_contexts[i].blinded_key_share.blinded_key_share,
            &pub_contexts[i].validator_public_key.encryption_key,
            ciphertext,
        );
        if !is_valid {
            assert(!share_verifies_in_context(pub_contexts@, *ciphertext, decryption_shares@, i as int));
            return false;
        }
        i += 1;
    }
    true
}

} // verus!
