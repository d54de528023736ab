//! Records of a dump of transcripts, for inspection: one validator's
//! address, its public key in hexadecimal, and its transcript in
//! hexadecimal.

use vstd::prelude::*;
use vstd::utf8::encode_utf8;
use crate::curve::{g2_encoding, G2Point};
use crate::error::{Error, EthereumAddressParseError};
use crate::pvss::{PubliclyVerifiableSS, TranscriptView};
use crate::validator::{address_syntax, EthereumAddress, PublicKey};
use crate::wire::decoded_transcript;

verus! {

/// The value of a hexadecimal digit in ASCII, of either case.
pub open spec fn hex_value(c: u8) -> Option<u8> {
    if 0x30 <= c <= 0x39 {
        Some((c - 0x30) as u8)
    } else if 0x61 <= c <= 0x66 {
        Some((c - 0x61 + 10) as u8)
    } else if 0x41 <= c <= 0x46 {
        Some((c - 0x41 + 10) as u8)
    } else {
        None
    }
}

/// Whether a text is hexadecimal: an even number of hexadecimal digits.
pub open spec fn is_hex(text: Seq<u8>) -> bool {
    &&& text.len() % 2 == 0
    &&& forall|i: int| 0 <= i < text.len() ==> hex_value(#[trigger] text[i]) is Some
}

/// The bytes that a hexadecimal text spells, two digits to the byte.
pub open spec fn hex_bytes(text: Seq<u8>) -> Seq<u8> {
    Seq::new(
        text.len() / 2,
        |i: int| (hex_value(text[2 * i])->Some_0 * 16 + hex_value(text[2 * i + 1])->Some_0) as u8,
    )
}

fn hex_digit(c: u8) -> (out: Option<u8>)
    ensures
        out == hex_value(c),
        out matches Some(v) ==> v < 16,
{
    if 0x30 <= c && c <= 0x39 {
        Some(c - 0x30)
    } else if 0x61 <= c && c <= 0x66 {
        Some(c - 0x61 + 10)
    } else if 0x41 <= c && c <= 0x46 {
        Some(c - 0x41 + 10)
    } else {
        None
    }
}

/// Decodes a hexadecimal text; nothing unless it is an even number of
/// hexadecimal digits.
pub fn decode_hex(text: &[u8]) -> (out: Option<Vec<u8>>)
    ensures
        match out {
            Some(bytes) => is_hex(text@) && bytes@ == hex_bytes(text@),
            None => !is_hex(text@),
        },
{
    let n = text.len();
    if n % 2 != 0 {
        return None;
    }
    let mut out: Vec<u8> = Vec::new();
    let mut i: usize = 0;
    while i < n / 2
        invariant
            i <= n / 2,
            n == text@.len(),
            n % 2 == 0,
            out@.len() == i,
            forall|k: int| 0 <= k < 2 * i ==> hex_value(#[trigger] text@[k]) is Some,
            forall|k: int| 0 <= k < i ==> #[trigger] out@[k] == hex_bytes(text@)[k],
        decreases n / 2 - i,
    {
        let high = match hex_digit(text[2 * i]) {
            Some(v) => v,
            None => {
                return None;
            },
        };
        let low = match hex_digit(text[2 * i + 1]) {
            Some(v) => v,
            None => {
                return None;
            },
        };
        out.push(high * 16 + low);
        i += 1;
    }
    assert(out@ =~= hex_bytes(text@));
    Some(out)
}

/// Why a record was refused.
#[derive(Debug, PartialEq, Eq)]
pub enum RecordError {
    /// The key or the transcript is not hexadecimal.
    InvalidHex,
    /// The address has not 42 bytes.
    InvalidAddressLength(usize),
    /// The key has not 96 bytes.
    InvalidKeyLength(usize),
    /// The address does not parse.
    InvalidAddress(EthereumAddressParseError),
    /// The key is no point of the group.
    InvalidKey,
    /// The transcript does not decode.
    InvalidTranscript(Error),
}

/// One record: a validator's address, its public key, and its transcript.
#[derive(Debug, PartialEq, Eq)]
pub struct ValidatorTranscript {
    pub validator_address: EthereumAddress,
    pub validator_pk: PublicKey,
    pub transcript: PubliclyVerifiableSS,
}

/// What a record is in contracts.
pub struct RecordView {
    pub validator_address: Seq<char>,
    pub validator_pk: Seq<u8>,
    pub transcript: TranscriptView,
}

/// What the three fields of a line parse to. The checks come in this
/// order: both hexadecimal fields decode; the address has 42 bytes; the key
/// has 96 bytes; the address parses; the key is a point; the transcript
/// decodes.
pub open spec fn parsed_record(address: Seq<char>, key_hex: Seq<u8>, transcript_hex: Seq<u8>) -> Result<
    RecordView,
    RecordError,
> {
    if !is_hex(key_hex) || !is_hex(transcript_hex) {
        Err(RecordError::InvalidHex)
    } else if encode_utf8(address).len() != 42 {
        Err(RecordError::InvalidAddressLength(encode_utf8(address).len() as usize))
    } else if hex_bytes(key_hex).len() != 96 {
        Err(RecordError::InvalidKeyLength(hex_bytes(key_hex).len() as usize))
    } else if !address_syntax(encode_utf8(address)) {
        Err(RecordError::InvalidAddress(EthereumAddressParseError::InvalidHex))
    } else if !g2_encoding(hex_bytes(key_hex)) {
        Err(RecordError::InvalidKey)
    } else {
        match decoded_transcript(hex_bytes(transcript_hex)) {
            Err(e) => Err(RecordError::InvalidTranscript(e)),
            Ok(t) => Ok(
                RecordView {
                    validator_address: address,
                    validator_pk: hex_bytes(key_hex),
                    transcript: t,
                },
            ),
        }
    }
}

/// Parses the three fields of a line of a dump.
pub fn parse_record(address: &str, key_hex: &[u8], transcript_hex: &[u8]) -> (out: Result<
    ValidatorTranscript,
    RecordError,
>)
    ensures
        match out {
            Ok(r) => parsed_record(address@, key_hex@, transcript_hex@) == Ok::<
                RecordView,
                RecordError,
            >(
                RecordView {
                    validator_address: r.validator_address@,
                    validator_pk: r.validator_pk@,
                    transcript: r.transcript@,
                },
            ),
            Err(e) => parsed_record(address@, key_hex@, transcript_hex@) == Err::<
                RecordView,
                RecordError,
            >(e),
        },
{
    let key_bytes = match decode_hex(key_hex) {
        Some(bytes) => bytes,
        None => {
            return Err(RecordError::InvalidHex);
        },
    };
    let transcript_bytes = match decode_hex(transcript_hex) {
        Some(bytes) => bytes,
        None => {
            return Err(RecordError::InvalidHex);
        },
    };
    let address_length = address.as_bytes().len();
    if address_length != 42 {
        return Err(RecordError::InvalidAddressLength(address_length));
    }
    if key_bytes.len() != 96 {
        return Err(RecordError::InvalidKeyLength(key_bytes.len()));
    }
    let validator_address = match EthereumAddress::from_str(address) {
        Ok(a) => a,
        Err(e) => {
            return Err(RecordError::InvalidAddress(e));
        },
    };
    let validator_pk = match G2Point::from_bytes(key_bytes.as_slice()) {
        Ok(p) => PublicKey { encryption_key: p },
        Err(_) => {
            return Err(RecordError::InvalidKey);
        },
    };
    match PubliclyVerifiableSS::from_bytes(transcript_bytes.as_slice()) {
        Ok(transcript) => Ok(ValidatorTranscript { validator_address, validator_pk, transcript }),
        Err(e) => Err(RecordError::InvalidTranscript(e)),
    }
}

} // verus!
