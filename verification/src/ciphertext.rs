//! Ciphertexts: encryption under the group public key, the header check
//! that binds a ciphertext to its commitment and associated data, and
//! decryption with the shared secret.

use vstd::prelude::*;
use vstd::string::StrSliceExecFns;
use vstd::string::StringSliceAdditionalSpecFns;
use vstd::utf8::encode_utf8;
use crate::bytes::{append_bytes, copy_bytes, slice_bytes, slice_to_bytes};
use crate::combine::SharedSecret;
use crate::curve::{
    g1_generator,
    g1_scaled,
    g2_generator,
    g2_hash,
    g2_scaled,
    hash_to_g2,
    pairing,
    pairing_of,
    G1Point,
    G2Point,
};
use crate::error::Error;
use crate::key_share::{DkgPublicKey, PrivateKeyShare};
use crate::scalar::{modulus, Scalar};
use crate::symmetric::{aead_open, aead_seal, digest, open, seal, sha256, TAG_SIZE};
use rand::rngs::StdRng;

verus! {

/// A plaintext on its way into encryption. It is wiped when it is consumed.
#[derive(Debug, PartialEq, Eq)]
pub struct SecretBox {
    inner: Vec<u8>,
}

impl View for SecretBox {
    type V = Seq<u8>;

    closed spec fn view(&self) -> Seq<u8> {
        self.inner@
    }
}

impl SecretBox {
    /// Boxes a plaintext.
    pub fn new(value: Vec<u8>) -> (out: SecretBox)
        ensures
            out@ == value@,
    {
        SecretBox { inner: value }
    }

    /// The plaintext.
    pub fn as_secret(&self) -> (out: &Vec<u8>)
        ensures
            out@ == self@,
    {
        &self.inner
    }

    /// Overwrites the plaintext with zeros and drops it.
    pub fn zeroize(self) {
        let mut inner = self.inner;
        crate::scalar::wipe_bytes(&mut inner);
    }
}

/// What a ciphertext is in contracts.
pub struct CiphertextView {
    pub commitment: Seq<u8>,
    pub auth_tag: Seq<u8>,
    pub ciphertext: Seq<u8>,
}

/// What a ciphertext header is in contracts.
pub struct CiphertextHeaderView {
    pub commitment: Seq<u8>,
    pub auth_tag: Seq<u8>,
    pub ciphertext_hash: Seq<u8>,
}

/// The domain separation tag of the hash that makes the authentication tag.
pub open spec fn tag_domain() -> Seq<u8> {
    encode_utf8("FERVEO-TDEC-V01-CS01-with-BLS12381G2_XMD:SHA-256_SSWU_RO_"@)
}

/// What is hashed to the curve for the authentication tag: the commitment,
/// the digest of the payload, and the associated data.
pub open spec fn tag_input(commitment: Seq<u8>, ciphertext_hash: Seq<u8>, aad: Seq<u8>) -> Seq<u8> {
    commitment + ciphertext_hash + aad
}

/// The point that the tag input hashes to.
pub open spec fn tag_point(commitment: Seq<u8>, ciphertext_hash: Seq<u8>, aad: Seq<u8>) -> Option<
    Seq<u8>,
> {
    g2_hash(tag_domain(), tag_input(commitment, ciphertext_hash, aad))
}

/// Whether a header verifies against the associated data: the commitment
/// pairs with the tag point as the generator does with the authentication
/// tag, so both were raised by one exponent.
pub open spec fn header_verifies(header: CiphertextHeaderView, aad: Seq<u8>) -> bool {
    match tag_point(header.commitment, header.ciphertext_hash, aad) {
        Some(w) => pairing_of(header.commitment, w) == pairing_of(g1_generator(), header.auth_tag),
        None => false,
    }
}

/// The header of a ciphertext.
pub open spec fn header_of(ciphertext: CiphertextView) -> CiphertextHeaderView {
    CiphertextHeaderView {
        commitment: ciphertext.commitment,
        auth_tag: ciphertext.auth_tag,
        ciphertext_hash: sha256(ciphertext.ciphertext),
    }
}

/// The tag that separates the key derivation from other uses of the hash.
pub open spec fn key_domain() -> Seq<u8> {
    encode_utf8("FERVEO-TDEC-V01-KEY"@)
}

/// The symmetric key that a shared secret gives: the digest of the key
/// tag followed by the secret's encoding.
pub open spec fn symmetric_key(secret: Seq<u8>) -> Seq<u8> {
    sha256(key_domain() + secret)
}

/// The nonce that a commitment gives.
pub open spec fn nonce_of(commitment: Seq<u8>) -> Seq<u8> {
    sha256(commitment).subrange(0, 12)
}

/// The secret that masks a message encrypted to `public_key` with the
/// exponent `r`.
pub open spec fn masking_secret(public_key: Seq<u8>, r: nat) -> Seq<u8> {
    pairing_of(g1_scaled(public_key, r), g2_generator())
}

/// The ciphertext of `msg` under `public_key` with the exponent `r`.
pub open spec fn encryption_of(msg: Seq<u8>, aad: Seq<u8>, public_key: Seq<u8>, r: nat) -> Result<
    CiphertextView,
    Error,
> {
    let commitment = g1_scaled(g1_generator(), r);
    let key = symmetric_key(masking_secret(public_key, r));
    match aead_seal(key, nonce_of(commitment), aad, msg) {
        None => Err(Error::SymmetricEncryptionError),
        Some(payload) => match tag_point(commitment, sha256(payload), aad) {
            None => Err(Error::ArithmeticError),
            Some(w) => Ok(
                CiphertextView { commitment, auth_tag: g2_scaled(w, r), ciphertext: payload },
            ),
        },
    }
}

/// Whether `outcome` is what encryption with the exponent `r` gives.
pub open spec fn encrypts_with(
    outcome: Result<CiphertextView, Error>,
    msg: Seq<u8>,
    aad: Seq<u8>,
    public_key: Seq<u8>,
    r: nat,
) -> bool {
    r < modulus() && encryption_of(msg, aad, public_key, r) == outcome
}

/// What decryption of a ciphertext with a shared secret gives.
pub open spec fn decryption_of(ciphertext: CiphertextView, aad: Seq<u8>, secret: Seq<u8>) -> Result<
    Seq<u8>,
    Error,
> {
    if !header_verifies(header_of(ciphertext), aad) {
        Err(Error::CiphertextVerificationFailed)
    } else {
        match aead_open(
            symmetric_key(secret),
            nonce_of(ciphertext.commitment),
            aad,
            ciphertext.ciphertext,
        ) {
            Some(msg) => Ok(msg),
            None => Err(Error::SymmetricEncryptionError),
        }
    }
}

/// The outcome of an encryption in contracts.
pub open spec fn outcome_view(out: Result<Ciphertext, Error>) -> Result<CiphertextView, Error> {
    match out {
        Ok(ct) => Ok(ct@),
        Err(e) => Err(e),
    }
}

/// The part of a ciphertext that a validator needs to make a decryption
/// share: the commitment, the authentication tag, and the digest of the
/// payload.
#[derive(Debug, PartialEq, Eq)]
pub struct CiphertextHeader {
    pub commitment: G1Point,
    pub auth_tag: G2Point,
    pub ciphertext_hash: Vec<u8>,
}

impl View for CiphertextHeader {
    type V = CiphertextHeaderView;

    open spec fn view(&self) -> CiphertextHeaderView {
        CiphertextHeaderView {
            commitment: self.commitment@,
            auth_tag: self.auth_tag@,
            ciphertext_hash: self.ciphertext_hash@,
        }
    }
}

impl Clone for CiphertextHeader {
    fn clone(&self) -> (out: Self)
        ensures
            out@ == self@,
    {
        CiphertextHeader {
            commitment: self.commitment.clone(),
            auth_tag: self.auth_tag.clone(),
            ciphertext_hash: copy_bytes(&self.ciphertext_hash),
        }
    }
}

/// The domain separation tag as bytes.
fn tag_domain_bytes() -> (out: Vec<u8>)
    ensures
        out@ == tag_domain(),
{
    "FERVEO-TDEC-V01-CS01-with-BLS12381G2_XMD:SHA-256_SSWU_RO_".as_bytes_vec()
}

/// The point that the tag input hashes to.
fn construct_tag_hash(commitment: &G1Point, ciphertext_hash: &Vec<u8>, aad: &[u8]) -> (out: Option<
    G2Point,
>)
    ensures
        match out {
            Some(w) => tag_point(commitment@, ciphertext_hash@, aad@) == Some(w@),
            None => tag_point(commitment@, ciphertext_hash@, aad@) is None,
        },
{
    let mut hash_input = commitment.to_bytes();
    append_bytes(&mut hash_input, ciphertext_hash);
    let aad_bytes = slice_to_bytes(aad);
    append_bytes(&mut hash_input, &aad_bytes);
    let domain = tag_domain_bytes();
    hash_to_g2(&domain, &hash_input)
}

/// The nonce that a commitment gives: the first twelve bytes of its digest.
fn nonce_from_commitment(commitment: &G1Point) -> (out: Vec<u8>)
    ensures
        out@ == nonce_of(commitment@),
        out@.len() == 12,
{
    let encoded = commitment.to_bytes();
    let hashed = digest(&encoded);
    slice_bytes(&hashed, 0, 12)
}

/// The symmetric key that a shared secret gives.
fn shared_secret_to_key(shared_secret: &SharedSecret) -> (out: Vec<u8>)
    ensures
        out@ == symmetric_key(shared_secret@),
        out@.len() == 32,
{
    let mut input = "FERVEO-TDEC-V01-KEY".as_bytes_vec();
    let encoded = shared_secret.0.to_bytes();
    append_bytes(&mut input, &encoded);
    let key = digest(&input);
    let mut encoded = encoded;
    crate::scalar::wipe_bytes(&mut encoded);
    crate::scalar::wipe_bytes(&mut input);
    key
}

impl CiphertextHeader {
    /// Checks the header against the associated data: `Ok(true)` where it
    /// verifies, else `CiphertextVerificationFailed`.
    pub fn check(&self, aad: &[u8]) -> (out: Result<bool, Error>)
        ensures
            match out {
                Ok(ok) => ok && header_verifies(self@, aad@),
                Err(e) => e == Error::CiphertextVerificationFailed && !header_verifies(self@, aad@),
            },
    {
        match construct_tag_hash(&self.commitment, &self.ciphertext_hash, aad) {
            Some(w) => {
                let left = pairing(&self.commitment, &w);
                let right = pairing(&G1Point::generator(), &self.auth_tag);
                if left.equals(&right) {
                    Ok(true)
                } else {
                    Err(Error::CiphertextVerificationFailed)
                }
            },
            None => Err(Error::CiphertextVerificationFailed),
        }
    }
}

/// A message encrypted to the group public key.
#[derive(Debug, PartialEq, Eq)]
pub struct Ciphertext {
    /// The generator raised to the encryption exponent.
    pub commitment: G1Point,
    /// The tag point raised to the encryption exponent.
    pub auth_tag: G2Point,
    /// The sealed payload.
    pub ciphertext: Vec<u8>,
}

impl View for Ciphertext {
    type V = CiphertextView;

    open spec fn view(&self) -> CiphertextView {
        CiphertextView {
            commitment: self.commitment@,
            auth_tag: self.auth_tag@,
            ciphertext: self.ciphertext@,
        }
    }
}

impl Clone for Ciphertext {
    fn clone(&self) -> (out: Self)
        ensures
            out@ == self@,
    {
        Ciphertext {
            commitment: self.commitment.clone(),
            auth_tag: self.auth_tag.clone(),
            ciphertext: copy_bytes(&self.ciphertext),
        }
    }
}

impl Ciphertext {
    /// Checks the ciphertext's header against the associated data.
    pub fn check(&self, aad: &[u8]) -> (out: Result<bool, Error>)
        ensures
            match out {
                Ok(ok) => ok && header_verifies(header_of(self@), aad@),
                Err(e) => e == Error::CiphertextVerificationFailed && !header_verifies(
                    header_of(self@),
                    aad@,
                ),
            },
    {
        let header = self.make_header();
        header.check(aad)
    }

    /// The digest of the payload.
    pub fn ciphertext_hash(&self) -> (out: Vec<u8>)
        ensures
            out@ == sha256(self.ciphertext@),
            out@.len() == 32,
    {
        digest(&self.ciphertext)
    }

    fn make_header(&self) -> (out: CiphertextHeader)
        ensures
            out@ == header_of(self@),
    {
        CiphertextHeader {
            commitment: self.commitment.clone(),
            auth_tag: self.auth_tag.clone(),
            ciphertext_hash: self.ciphertext_hash(),
        }
    }

    /// The header: commitment, authentication tag, and payload digest.
    pub fn header(&self) -> (out: Result<CiphertextHeader, Error>)
        ensures
            out matches Ok(h) && h@ == header_of(self@),
    {
        Ok(self.make_header())
    }

    /// The sealed payload.
    pub fn payload(&self) -> (out: Vec<u8>)
        ensures
            out@ == self.ciphertext@,
    {
        copy_bytes(&self.ciphertext)
    }
}

/// Encrypts a message to the group public key with the exponent `r`.
///
/// The commitment is the generator raised to `r`; the payload is the
/// message sealed under the key derived from the masking secret, with the
/// nonce derived from the commitment and with the associated data; the
/// authentication tag is the tag point raised to `r`.
pub fn encrypt_with_exponent(message: &SecretBox, aad: &[u8], pubkey: &DkgPublicKey, r: &Scalar) -> (out:
    Result<Ciphertext, Error>)
    requires
        message@.len() + TAG_SIZE <= isize::MAX,
    ensures
        outcome_view(out) == encryption_of(message@, aad@, pubkey@, r@),
{
    let commitment = G1Point::generator().mul(r);
    let masked_key = pubkey.0.mul(r);
    let shared_secret = SharedSecret(pairing(&masked_key, &G2Point::generator()));
    let key = shared_secret_to_key(&shared_secret);
    shared_secret.zeroize();
    let nonce = nonce_from_commitment(&commitment);
    let sealed = seal(&key, &nonce, aad, message.as_secret());
    let mut key = key;
    crate::scalar::wipe_bytes(&mut key);
    let payload = match sealed {
        Some(payload) => payload,
        None => {
            return Err(Error::SymmetricEncryptionError);
        },
    };
    let ciphertext_hash = digest(&payload);
    let tag = match construct_tag_hash(&commitment, &ciphertext_hash, aad) {
        Some(tag) => tag,
        None => {
            return Err(Error::ArithmeticError);
        },
    };
    let auth_tag = tag.mul(r);
    Ok(Ciphertext { commitment, auth_tag, ciphertext: payload })
}

/// Encrypts a message to the group public key with an exponent drawn from
/// `rng`. The message is wiped.
pub fn encrypt(message: SecretBox, aad: &[u8], pubkey: &DkgPublicKey, rng: &mut StdRng) -> (out: Result<
    Ciphertext,
    Error,
>)
    requires
        message@.len() + TAG_SIZE <= isize::MAX,
    ensures
        exists|r: nat| #[trigger] encrypts_with(outcome_view(out), message@, aad@, pubkey@, r),
{
    let r = Scalar::random(rng);
    r.canonical();
    let out = encrypt_with_exponent(&message, aad, pubkey, &r);
    assert(encrypts_with(outcome_view(out), message@, aad@, pubkey@, r@));
    r.zeroize();
    message.zeroize();
    out
}

/// Decrypts a ciphertext with the shared secret: the header is checked
/// first, then the payload is opened under the key derived from the secret.
pub fn decrypt_with_shared_secret(ciphertext: &Ciphertext, aad: &[u8], shared_secret: &SharedSecret) -> (out:
    Result<Vec<u8>, Error>)
    ensures
        match out {
            Ok(msg) => decryption_of(ciphertext@, aad@, shared_secret@) == Ok::<Seq<u8>, Error>(msg@),
            Err(e) => decryption_of(ciphertext@, aad@, shared_secret@) == Err::<Seq<u8>, Error>(e),
        },
{
    match ciphertext.check(aad) {
        Ok(_) => {},
        Err(e) => {
            return Err(e);
        },
    }
    decrypt_with_shared_secret_unchecked(ciphertext, aad, shared_secret)
}

/// Opens the payload under the key derived from the secret, without a check
/// of the header.
fn decrypt_with_shared_secret_unchecked(
    ciphertext: &Ciphertext,
    aad: &[u8],
    shared_secret: &SharedSecret,
) -> (out: Result<Vec<u8>, Error>)
    ensures
        match out {
            Ok(msg) => aead_open(
                symmetric_key(shared_secret@),
                nonce_of(ciphertext.commitment@),
                aad@,
                ciphertext.ciphertext@,
            ) == Some(msg@),
            Err(e) => e == Error::SymmetricEncryptionError && aead_open(
                symmetric_key(shared_secret@),
                nonce_of(ciphertext.commitment@),
                aad@,
                ciphertext.ciphertext@,
            ) is None,
        },
{
    let nonce = nonce_from_commitment(&ciphertext.commitment);
    let key = shared_secret_to_key(shared_secret);
    let opened = open(&key, &nonce, aad, &ciphertext.ciphertext);
    let mut key = key;
    crate::scalar::wipe_bytes(&mut key);
    match opened {
        Some(msg) => Ok(msg),
        None => Err(Error::SymmetricEncryptionError),
    }
}

/// Decrypts a ciphertext with the whole private key: the shared secret is
/// the pairing of the commitment with the key.
pub fn decrypt_symmetric(ciphertext: &Ciphertext, aad: &[u8], private_key: &PrivateKeyShare) -> (out:
    Result<Vec<u8>, Error>)
    ensures
        match out {
            Ok(msg) => decryption_of(
                ciphertext@,
                aad@,
                pairing_of(ciphertext.commitment@, private_key@),
            ) == Ok::<Seq<u8>, Error>(msg@),
            Err(e) => decryption_of(
                ciphertext@,
                aad@,
                pairing_of(ciphertext.commitment@, private_key@),
            ) == Err::<Seq<u8>, Error>(e),
        },
{
    match ciphertext.check(aad) {
        Ok(_) => {},
        Err(e) => {
            return Err(e);
        },
    }
    let shared_secret = SharedSecret(pairing(&ciphertext.commitment, &private_key.0));
    let out = decrypt_with_shared_secret_unchecked(ciphertext, aad, &shared_secret);
    shared_secret.zeroize();
    out
}

} // verus!
