//! Validators: their addresses, their key pairs, and the rule that no two of
//! them hold one share index.

use vstd::prelude::*;
use vstd::string::StringExecFns;
use vstd::string::StringSliceAdditionalSpecFns;
use vstd::utf8::encode_utf8;
use crate::curve::{g2_generator, g2_scaled, G2Point};
use crate::error::{Error, EthereumAddressParseError};
use crate::scalar::Scalar;
use rand::rngs::StdRng;

verus! {

/// A lowercase hexadecimal digit in ASCII.
pub open spec fn is_lower_hex(c: u8) -> bool {
    (0x30 <= c <= 0x39) || (0x61 <= c <= 0x66)
}

/// The form of an address: `0x` and forty lowercase hexadecimal digits.
pub open spec fn address_syntax(b: Seq<u8>) -> bool {
    &&& b.len() == 42
    &&& b[0] == 0x30
    &&& b[1] == 0x78
    &&& forall|i: int| 2 <= i < 42 ==> is_lower_hex(#[trigger] b[i])
}

/// The address by which a validator is known. It is a handle for display
/// and audit only: shares are assigned by share index.
#[derive(Debug, PartialEq, Eq, Hash, PartialOrd, Ord)]
pub struct EthereumAddress {
    text: String,
}

impl View for EthereumAddress {
    type V = Seq<char>;

    closed spec fn view(&self) -> Seq<char> {
        self.text@
    }
}

impl Clone for EthereumAddress {
    fn clone(&self) -> (out: Self)
        ensures
            out@ == self@,
    {
        EthereumAddress { text: self.text.clone() }
    }
}

impl EthereumAddress {
    /// Parses an address: `InvalidLength` unless the string has 42 bytes,
    /// `InvalidHex` unless it is `0x` followed by lowercase hexadecimal digits.
    pub fn from_str(s: &str) -> (out: Result<EthereumAddress, EthereumAddressParseError>)
        ensures
            match out {
                Ok(a) => address_syntax(encode_utf8(s@)) && a@ == s@,
                Err(e) => if encode_utf8(s@).len() != 42 {
                    e == EthereumAddressParseError::InvalidLength
                } else {
                    e == EthereumAddressParseError::InvalidHex && !address_syntax(encode_utf8(s@))
                },
            },
    {
        let bytes = s.as_bytes();
        if bytes.len() != 42 {
            return Err(EthereumAddressParseError::InvalidLength);
        }
        if bytes[0] != 0x30 || bytes[1] != 0x78 {
            return Err(EthereumAddressParseError::InvalidHex);
        }
        let mut i: usize = 2;
        while i < 42
            invariant
                2 <= i <= 42,
                bytes@.len() == 42,
                bytes@ == encode_utf8(s@),
                forall|j: int| 2 <= j < i ==> is_lower_hex(#[trigger] bytes@[j]),
            decreases 42 - i,
        {
            let c = bytes[i];
            if !((0x30 <= c && c <= 0x39) || (0x61 <= c && c <= 0x66)) {
                assert(!is_lower_hex(bytes@[i as int]));
                return Err(EthereumAddressParseError::InvalidHex);
            }
            i += 1;
        }
        Ok(EthereumAddress { text: String::from_str(s) })
    }

    /// The address as text.
    pub fn to_string(&self) -> (out: String)
        ensures
            out@ == self@,
    {
        self.text.clone()
    }

    /// Whether two addresses are the same text.
    pub fn equals(&self, other: &EthereumAddress) -> (same: bool)
        ensures
            same == (self@ == other@),
    {
        self.text == other.text
    }
}

/// The public half of a validator's key pair: the generator of the second
/// group multiplied by the decryption key.
#[derive(Debug, PartialEq, Eq, Hash)]
pub struct PublicKey {
    pub encryption_key: G2Point,
}

impl View for PublicKey {
    type V = Seq<u8>;

    open spec fn view(&self) -> Seq<u8> {
        self.encryption_key@
    }
}

impl Clone for PublicKey {
    fn clone(&self) -> (out: Self)
        ensures
            out@ == self@,
    {
        PublicKey { encryption_key: self.encryption_key.clone() }
    }
}

impl PublicKey {
    /// Whether two public keys are the same point.
    pub fn equals(&self, other: &PublicKey) -> (same: bool)
        ensures
            same == (self@ == other@),
    {
        self.encryption_key.equals(&other.encryption_key)
    }
}

/// A validator's key pair, held as its decryption key.
#[derive(Debug, PartialEq, Eq)]
pub struct Keypair {
    pub decryption_key: Scalar,
}

impl View for Keypair {
    type V = nat;

    open spec fn view(&self) -> nat {
        self.decryption_key@
    }
}

impl Clone for Keypair {
    fn clone(&self) -> (out: Self)
        ensures
            out@ == self@,
    {
        Keypair { decryption_key: self.decryption_key.clone() }
    }
}

/// The encoding of the public key that belongs to the decryption key `dk`.
pub open spec fn public_key_of(dk: nat) -> Seq<u8> {
    g2_scaled(g2_generator(), dk)
}

impl Keypair {
    /// A key pair with a decryption key drawn from `rng`.
    pub fn new(rng: &mut StdRng) -> (out: Keypair)
        ensures
            crate::scalar::scalar_encoding(out.decryption_key.encoding()),
            out@ < crate::scalar::modulus(),
    {
        let decryption_key = Scalar::random(rng);
        decryption_key.canonical();
        Keypair { decryption_key }
    }

    /// The key pair of a given decryption key.
    pub fn from_secret(decryption_key: Scalar) -> (out: Keypair)
        ensures
            out@ == decryption_key@,
    {
        Keypair { decryption_key }
    }

    /// The public key of the pair.
    pub fn public_key(&self) -> (out: PublicKey)
        ensures
            out@ == public_key_of(self@),
    {
        PublicKey { encryption_key: G2Point::generator().mul(&self.decryption_key) }
    }
}

/// What a validator is in contracts: its address, the encoding of its
/// public key, and its share index.
pub struct ValidatorView {
    pub address: Seq<char>,
    pub public_key: Seq<u8>,
    pub share_index: u32,
}

/// One participant of a session.
#[derive(Debug, PartialEq, Eq)]
pub struct Validator {
    /// The established address of the validator.
    pub address: EthereumAddress,
    /// Its public key.
    pub public_key: PublicKey,
    /// The index of its share: its position in the evaluation domain.
    pub share_index: u32,
}

impl View for Validator {
    type V = ValidatorView;

    open spec fn view(&self) -> ValidatorView {
        ValidatorView {
            address: self.address@,
            public_key: self.public_key@,
            share_index: self.share_index,
        }
    }
}

impl Clone for Validator {
    fn clone(&self) -> (out: Self)
        ensures
            out@ == self@,
    {
        Validator {
            address: self.address.clone(),
            public_key: self.public_key.clone(),
            share_index: self.share_index,
        }
    }
}

impl Validator {
    /// A validator, if `address` parses.
    pub fn new(address: String, public_key: PublicKey, share_index: u32) -> (out: Result<
        Validator,
        EthereumAddressParseError,
    >)
        ensures
            match out {
                Ok(v) => address_syntax(encode_utf8(address@)) && v@ == (ValidatorView {
                    address: address@,
                    public_key: public_key@,
                    share_index,
                }),
                Err(e) => if encode_utf8(address@).len() != 42 {
                    e == EthereumAddressParseError::InvalidLength
                } else {
                    e == EthereumAddressParseError::InvalidHex && !address_syntax(encode_utf8(address@))
                },
            },
    {
        match EthereumAddress::from_str(address.as_str()) {
            Ok(parsed) => Ok(Validator { address: parsed, public_key, share_index }),
            Err(e) => Err(e),
        }
    }
}

/// The views of a sequence of validators.
pub open spec fn validator_views(vs: Seq<Validator>) -> Seq<ValidatorView> {
    vs.map_values(|v: Validator| v@)
}

/// Whether the share index of the `i`-th validator is held by an earlier one.
pub open spec fn occurs_before(vs: Seq<ValidatorView>, i: int) -> bool {
    exists|j: int| 0 <= j < i && (#[trigger] vs[j]).share_index == vs[i].share_index
}

/// Whether no two of the validators hold one share index.
pub open spec fn distinct_share_indices(vs: Seq<ValidatorView>) -> bool {
    forall|i: int| 0 <= i < vs.len() ==> !occurs_before(vs, i)
}

/// Whether the `i`-th validator is the first whose share index is held by
/// an earlier one.
pub open spec fn first_repeat(vs: Seq<ValidatorView>, i: int) -> bool {
    &&& 0 <= i < vs.len()
    &&& occurs_before(vs, i)
    &&& forall|k: int| 0 <= k < i ==> !occurs_before(vs, k)
}

/// Succeeds when no two validators hold one share index; else fails with
/// `DuplicatedShareIndex` for the first validator, in the order given, that
/// repeats an earlier one's index.
pub fn assert_no_share_duplicates(validators: &[Validator]) -> (out: Result<(), Error>)
    ensures
        match out {
            Ok(_) => distinct_share_indices(validator_views(validators@)),
            Err(e) => exists|i: int|
                first_repeat(validator_views(validators@), i) && e == Error::DuplicatedShareIndex(
                    validators@[i].share_index,
                ),
        },
{
    let ghost vs = validator_views(validators@);
    let mut i: usize = 0;
    while i < validators.len()
        invariant
            i <= validators@.len(),
            vs == validator_views(validators@),
            forall|k: int| 0 <= k < i ==> !occurs_before(vs, k),
        decreases validators@.len() - i,
    {
        let mut j: usize = 0;
        while j < i
            invariant
                j <= i < validators@.len(),
                vs == validator_views(validators@),
                forall|k: int| 0 <= k < i ==> !occurs_before(vs, k),
                forall|k: int| 0 <= k < j ==> (#[trigger] vs[k]).share_index != vs[i as int].share_index,
            decreases i - j,
        {
            if validators[j].share_index == validators[i].share_index {
                assert(vs[j as int].share_index == vs[i as int].share_index);
                assert(occurs_before(vs, i as int));
                assert(first_repeat(vs, i as int));
                return Err(Error::DuplicatedShareIndex(validators[i].share_index));
            }
            j += 1;
        }
        assert(!occurs_before(vs, i as int));
        i += 1;
    }
    Ok(())
}

} // verus!
