//! The symmetric layer: SHA-256 for key and nonce derivation, and
//! ChaCha20-Poly1305 for the payload. Both are done by outside crates; what
//! they return is named by uninterpreted functions of their inputs.

use vstd::prelude::*;
use chacha20poly1305::aead::Aead;
use chacha20poly1305::aead::KeyInit;
use chacha20poly1305::aead::Payload;
use chacha20poly1305::ChaCha20Poly1305;
use chacha20poly1305::Key;
use chacha20poly1305::Nonce;
use sha2::Digest;
use sha2::Sha256;

verus! {

/// The SHA-256 digest of `data`.
pub uninterp spec fn sha256(data: Seq<u8>) -> Seq<u8>;

/// What ChaCha20-Poly1305 seals `msg` to under `key` and `nonce`, with the
/// associated data `aad`: the ciphertext followed by its tag, or nothing
/// where the message is too long for the cipher.
pub uninterp spec fn aead_seal(key: Seq<u8>, nonce: Seq<u8>, aad: Seq<u8>, msg: Seq<u8>) -> Option<
    Seq<u8>,
>;

/// What ChaCha20-Poly1305 opens `sealed` to under `key` and `nonce`, with
/// the associated data `aad`: the plaintext, or nothing where the tag does
/// not authenticate.
pub uninterp spec fn aead_open(key: Seq<u8>, nonce: Seq<u8>, aad: Seq<u8>, sealed: Seq<u8>) -> Option<
    Seq<u8>,
>;

/// The length of a key of the AEAD.
pub const KEY_SIZE: usize = 32;

/// The length of a nonce of the AEAD.
pub const NONCE_SIZE: usize = 12;

/// The length of the tag that the AEAD appends.
pub const TAG_SIZE: usize = 16;

/// The SHA-256 digest of `data`: 32 bytes.
pub fn digest(data: &Vec<u8>) -> (out: Vec<u8>)
    ensures
        out@ == sha256(data@),
        out@.len() == 32,
{
    sha256_digest(data)
}

/// `Sha256::digest`: the 32-byte digest, which depends on the data alone.
#[verifier::external_body]
fn sha256_digest(data: &Vec<u8>) -> (out: Vec<u8>)
    ensures
        out@ == sha256(data@),
        out@.len() == 32,
{
    Sha256::digest(&data[..]).to_vec()
}

/// `Aead::encrypt` of `ChaCha20Poly1305` with a payload of message and
/// associated data: the sealed bytes depend on the four inputs alone; it
/// fails only where the cipher refuses the message's length.
#[verifier::external_body]
pub(crate) fn seal(key: &Vec<u8>, nonce: &Vec<u8>, aad: &[u8], msg: &Vec<u8>) -> (out: Option<Vec<u8>>)
    requires
        key@.len() == KEY_SIZE,
        nonce@.len() == NONCE_SIZE,
        msg@.len() + TAG_SIZE <= isize::MAX,
    ensures
        match out {
            Some(sealed) => aead_seal(key@, nonce@, aad@, msg@) == Some(sealed@),
            None => aead_seal(key@, nonce@, aad@, msg@) is None,
        },
{
    let cipher = ChaCha20Poly1305::new(Key::from_slice(&key[..]));
    cipher.encrypt(Nonce::from_slice(&nonce[..]), Payload { msg: &msg[..], aad }).ok()
}

/// `Aead::decrypt` of `ChaCha20Poly1305` with a payload of sealed bytes and
/// associated data: the plaintext depends on the four inputs alone; it fails
/// where the tag does not authenticate them.
#[verifier::external_body]
pub(crate) fn open(key: &Vec<u8>, nonce: &Vec<u8>, aad: &[u8], sealed: &Vec<u8>) -> (out: Option<Vec<u8>>)
    requires
        key@.len() == KEY_SIZE,
        nonce@.len() == NONCE_SIZE,
    ensures
        match out {
            Some(msg) => aead_open(key@, nonce@, aad@, sealed@) == Some(msg@),
            None => aead_open(key@, nonce@, aad@, sealed@) is None,
        },
{
    let cipher = ChaCha20Poly1305::new(Key::from_slice(&key[..]));
    cipher.decrypt(Nonce::from_slice(&nonce[..]), Payload { msg: &sealed[..], aad }).ok()
}

} // verus!
