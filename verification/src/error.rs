//! The error kinds of the library.

use vstd::prelude::*;
use vstd::string::StringExecFns;

verus! {

/// Why an address string was refused.
#[derive(Debug, Clone, Copy, PartialEq, Eq, Structural)]
pub enum EthereumAddressParseError {
    /// The string is not 42 bytes long.
    InvalidLength,
    /// The string does not start with `0x`, or a character after it is not a
    /// lowercase hexadecimal digit.
    InvalidHex,
}

/// The failures of the legacy threshold encryption interface.
#[derive(Debug, Clone, Copy, PartialEq, Eq, Structural)]
pub enum ThresholdEncryptionError {
    /// The ciphertext header does not verify.
    CiphertextVerificationFailed,
    /// A decryption share does not verify.
    DecryptionShareVerificationFailed,
    /// The tag input could not be hashed to the curve.
    HashToCurveError,
    /// The payload did not authenticate.
    PlaintextVerificationFailed,
}

/// Every way in which an operation of the library can fail.
#[derive(Debug, Clone, PartialEq, Eq)]
pub enum Error {
    /// The ciphertext header does not verify against the associated data.
    CiphertextVerificationFailed,
    /// A decryption share fails its checksum proof.
    DecryptionShareVerificationFailed,
    /// The payload did not authenticate, or could not be sealed.
    SymmetricEncryptionError,
    /// A scalar that must be inverted is zero, or a message could not be
    /// hashed to the curve.
    ArithmeticError,
    /// The session's own validator is not in the validator set.
    DealerNotInValidatorSet(String),
    /// A transcript came from a share index outside the validator set.
    UnknownDealer(String),
    /// Two transcripts came from one dealer.
    DuplicateDealer(String),
    /// A transcript fails the proof-of-knowledge check.
    InvalidPvssTranscript(String),
    /// Fewer validators than shares (got, expected).
    InsufficientValidators(u32, u32),
    /// The aggregate fails full verification or does not match its inputs.
    InvalidTranscriptAggregate,
    /// A key pair does not belong to the validator it is used for.
    ValidatorPublicKeyMismatch,
    /// A byte string has the wrong length (expected, got).
    InvalidByteLength(usize, usize),
    /// A byte string of the right length is not a canonical encoding.
    DeserializationError,
    /// An unknown variant tag.
    InvalidVariant(String),
    /// `0 < threshold <= shares` does not hold (shares, threshold).
    InvalidDkgParameters(u32, u32),
    /// A share index is out of range.
    InvalidShareIndex(u32),
    /// A share update fails its pairing or commitment check.
    InvalidShareUpdate,
    /// The precomputed variant was asked for with unfit parameters (shares, threshold).
    InvalidDkgParametersForPrecomputedVariant(u32, u32),
    /// Two validators claim one share index.
    DuplicatedShareIndex(u32),
    /// Nothing to aggregate.
    NoTranscriptsToAggregate,
    /// More messages than validators (validators, messages).
    InvalidAggregateVerificationParameters(u32, u32),
    /// More transcripts than validators (expected, got).
    TooManyTranscripts(u32, u32),
    /// One transcript was sent twice.
    DuplicateTranscript(String),
}

/// The decimal digit `d` as text.
pub open spec fn digit_text(d: nat) -> Seq<char> {
    if d == 0 {
        "0"@
    } else if d == 1 {
        "1"@
    } else if d == 2 {
        "2"@
    } else if d == 3 {
        "3"@
    } else if d == 4 {
        "4"@
    } else if d == 5 {
        "5"@
    } else if d == 6 {
        "6"@
    } else if d == 7 {
        "7"@
    } else if d == 8 {
        "8"@
    } else {
        "9"@
    }
}

/// The number `n` in decimal.
pub open spec fn decimal_text(n: nat) -> Seq<char>
    decreases n,
{
    if n < 10 {
        digit_text(n)
    } else {
        decimal_text(n / 10) + digit_text(n % 10)
    }
}

fn digit_str(d: u64) -> (out: &'static str)
    requires
        d < 10,
    ensures
        out@ == digit_text(d as nat),
{
    if d == 0 {
        "0"
    } else if d == 1 {
        "1"
    } else if d == 2 {
        "2"
    } else if d == 3 {
        "3"
    } else if d == 4 {
        "4"
    } else if d == 5 {
        "5"
    } else if d == 6 {
        "6"
    } else if d == 7 {
        "7"
    } else if d == 8 {
        "8"
    } else {
        "9"
    }
}

/// The number `n` in decimal.
pub fn decimal(n: u64) -> (out: String)
    ensures
        out@ == decimal_text(n as nat),
    decreases n,
{
    if n < 10 {
        String::from_str(digit_str(n))
    } else {
        let mut out = decimal(n / 10);
        out.append(digit_str(n % 10));
        out
    }
}

/// A message with one argument after it.
pub open spec fn with_one(prefix: Seq<char>, a: Seq<char>) -> Seq<char> {
    prefix + a
}

/// A message with two arguments in it.
pub open spec fn with_two(
    prefix: Seq<char>,
    a: Seq<char>,
    middle: Seq<char>,
    b: Seq<char>,
    suffix: Seq<char>,
) -> Seq<char> {
    prefix + a + middle + b + suffix
}

fn message_one(prefix: &str, a: &str) -> (out: String)
    ensures
        out@ == with_one(prefix@, a@),
{
    let mut out = String::from_str(prefix);
    out.append(a);
    out
}

fn message_two(prefix: &str, a: u64, middle: &str, b: u64, suffix: &str) -> (out: String)
    ensures
        out@ == with_two(prefix@, decimal_text(a as nat), middle@, decimal_text(b as nat), suffix@),
{
    let mut out = String::from_str(prefix);
    let first = decimal(a);
    out.append(first.as_str());
    out.append(middle);
    let second = decimal(b);
    out.append(second.as_str());
    out.append(suffix);
    out
}

impl EthereumAddressParseError {
    /// The message of the error.
    pub open spec fn message(self) -> Seq<char> {
        match self {
            EthereumAddressParseError::InvalidLength => "Invalid Ethereum address length."@,
            EthereumAddressParseError::InvalidHex => "Invalid hex value in Ethereum address."@,
        }
    }

    /// The message of the error.
    pub fn to_string(&self) -> (out: String)
        ensures
            out@ == self.message(),
    {
        match self {
            EthereumAddressParseError::InvalidLength => String::from_str(
                "Invalid Ethereum address length.",
            ),
            EthereumAddressParseError::InvalidHex => String::from_str(
                "Invalid hex value in Ethereum address.",
            ),
        }
    }
}

impl ThresholdEncryptionError {
    /// The message of the error.
    pub open spec fn message(self) -> Seq<char> {
        match self {
            ThresholdEncryptionError::CiphertextVerificationFailed => "ciphertext verification failed"@,
            ThresholdEncryptionError::DecryptionShareVerificationFailed => "Decryption share verification failed"@,
            ThresholdEncryptionError::HashToCurveError => "Could not hash to curve"@,
            ThresholdEncryptionError::PlaintextVerificationFailed => "plaintext verification failed"@,
        }
    }

    /// The message of the error.
    pub fn to_string(&self) -> (out: String)
        ensures
            out@ == self.message(),
    {
        match self {
            ThresholdEncryptionError::CiphertextVerificationFailed => String::from_str(
                "ciphertext verification failed",
            ),
            ThresholdEncryptionError::DecryptionShareVerificationFailed => String::from_str(
                "Decryption share verification failed",
            ),
            ThresholdEncryptionError::HashToCurveError => String::from_str("Could not hash to curve"),
            ThresholdEncryptionError::PlaintextVerificationFailed => String::from_str(
                "plaintext verification failed",
            ),
        }
    }
}

impl Error {
    /// The message of the error.
    pub open spec fn message(self) -> Seq<char> {
        match self {
            Error::CiphertextVerificationFailed => "Ciphertext verification failed"@,
            Error::DecryptionShareVerificationFailed => "Decryption share verification failed"@,
            Error::SymmetricEncryptionError => "Symmetric encryption failed"@,
            Error::ArithmeticError => "Arithmetic error"@,
            Error::DealerNotInValidatorSet(a) => with_one(
                "Expected validator to be a part of the DKG validator set: "@,
                a@,
            ),
            Error::UnknownDealer(a) => with_one("DKG received an unknown dealer: "@, a@),
            Error::DuplicateDealer(a) => with_one(
                "DKG received a PVSS transcript from a dealer that has already been dealt: "@,
                a@,
            ),
            Error::InvalidPvssTranscript(a) => with_one(
                "DKG received an invalid transcript from validator: "@,
                a@,
            ),
            Error::InsufficientValidators(a, b) => with_two(
                "Not enough validators (expected "@,
                decimal_text(a as nat),
                ", got "@,
                decimal_text(b as nat),
                ")"@,
            ),
            Error::InvalidTranscriptAggregate => "Transcript aggregate doesn't match the received PVSS instances"@,
            Error::ValidatorPublicKeyMismatch => "Validator public key mismatch"@,
            Error::InvalidByteLength(a, b) => with_two(
                "Invalid byte length. Expected "@,
                decimal_text(a as nat),
                ", got "@,
                decimal_text(b as nat),
                ""@,
            ),
            Error::DeserializationError => "Deserialization error"@,
            Error::InvalidVariant(s) => with_one("Invalid variant: "@, s@),
            Error::InvalidDkgParameters(a, b) => with_two(
                "Invalid DKG parameters: number of shares "@,
                decimal_text(a as nat),
                ", threshold "@,
                decimal_text(b as nat),
                ""@,
            ),
            Error::InvalidShareIndex(a) => with_one("Invalid share index: "@, decimal_text(a as nat)),
            Error::InvalidShareUpdate => "Invalid share update"@,
            Error::InvalidDkgParametersForPrecomputedVariant(a, b) => with_two(
                "Invalid DKG parameters for precomputed variant: number of shares "@,
                decimal_text(a as nat),
                ", threshold "@,
                decimal_text(b as nat),
                ""@,
            ),
            Error::DuplicatedShareIndex(a) => with_one(
                "Duplicated share index: "@,
                decimal_text(a as nat),
            ),
            Error::NoTranscriptsToAggregate => "No transcripts to aggregate"@,
            Error::InvalidAggregateVerificationParameters(a, b) => with_two(
                "Invalid aggregate verification parameters: number of validators "@,
                decimal_text(a as nat),
                ", number of messages: "@,
                decimal_text(b as nat),
                ""@,
            ),
            Error::TooManyTranscripts(a, b) => with_two(
                "Too many transcripts. Expected: "@,
                decimal_text(a as nat),
                ", got: "@,
                decimal_text(b as nat),
                ""@,
            ),
            Error::DuplicateTranscript(a) => with_one(
                "Received a duplicated transcript from validator: "@,
                a@,
            ),
        }
    }

    /// The message of the error.
    pub fn to_string(&self) -> (out: String)
        ensures
            out@ == self.message(),
    {
        match self {
            Error::CiphertextVerificationFailed => String::from_str("Ciphertext verification failed"),
            Error::DecryptionShareVerificationFailed => String::from_str(
                "Decryption share verification failed",
            ),
            Error::SymmetricEncryptionError => String::from_str("Symmetric encryption failed"),
            Error::ArithmeticError => String::from_str("Arithmetic error"),
            Error::DealerNotInValidatorSet(a) => message_one(
                "Expected validator to be a part of the DKG validator set: ",
                a.as_str(),
            ),
            Error::UnknownDealer(a) => message_one("DKG received an unknown dealer: ", a.as_str()),
            Error::DuplicateDealer(a) => message_one(
                "DKG received a PVSS transcript from a dealer that has already been dealt: ",
                a.as_str(),
            ),
            Error::InvalidPvssTranscript(a) => message_one(
                "DKG received an invalid transcript from validator: ",
                a.as_str(),
            ),
            Error::InsufficientValidators(a, b) => message_two(
                "Not enough validators (expected ",
                *a as u64,
                ", got ",
                *b as u64,
                ")",
            ),
            Error::InvalidTranscriptAggregate => String::from_str(
                "Transcript aggregate doesn't match the received PVSS instances",
            ),
            Error::ValidatorPublicKeyMismatch => String::from_str("Validator public key mismatch"),
            Error::InvalidByteLength(a, b) => message_two(
                "Invalid byte length. Expected ",
                *a as u64,
                ", got ",
                *b as u64,
                "",
            ),
            Error::DeserializationError => String::from_str("Deserialization error"),
            Error::InvalidVariant(s) => message_one("Invalid variant: ", s.as_str()),
            Error::InvalidDkgParameters(a, b) => message_two(
                "Invalid DKG parameters: number of shares ",
                *a as u64,
                ", threshold ",
                *b as u64,
                "",
            ),
            Error::InvalidShareIndex(a) => {
                let number = decimal(*a as u64);
                message_one("Invalid share index: ", number.as_str())
            },
            Error::InvalidShareUpdate => String::from_str("Invalid share update"),
            Error::InvalidDkgParametersForPrecomputedVariant(a, b) => message_two(
                "Invalid DKG parameters for precomputed variant: number of shares ",
                *a as u64,
                ", threshold ",
                *b as u64,
                "",
            ),
            Error::DuplicatedShareIndex(a) => {
                let number = decimal(*a as u64);
                message_one("Duplicated share index: ", number.as_str())
            },
            Error::NoTranscriptsToAggregate => String::from_str("No transcripts to aggregate"),
            Error::InvalidAggregateVerificationParameters(a, b) => message_two(
                "Invalid aggregate verification parameters: number of validators ",
                *a as u64,
                ", number of messages: ",
                *b as u64,
                "",
            ),
            Error::TooManyTranscripts(a, b) => message_two(
                "Too many transcripts. Expected: ",
                *a as u64,
                ", got: ",
                *b as u64,
                "",
            ),
            Error::DuplicateTranscript(a) => message_one(
                "Received a duplicated transcript from validator: ",
                a.as_str(),
            ),
        }
    }
}

} // verus!
