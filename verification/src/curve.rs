//! The groups of the BLS12-381 pairing.
//!
//! A point of either source group is held in its compressed encoding (48
//! bytes in the first group, 96 in the second), an element of the target
//! field in its 576 bytes. The arithmetic is done by `ark-ec` and
//! `ark-bls12-381`; what an operation returns is named by an uninterpreted
//! function of the encodings that go in, so that the contracts above this
//! module say exactly which operations produced a value.
//!
//! Every value of these types holds a canonical encoding: that is the
//! types' invariant, which the decoders establish and on which the calls
//! into the outside crates rely when they decode their arguments.

use vstd::prelude::*;
use crate::bytes::{bytes_equal, copy_bytes, slice_to_bytes, zeros};
use crate::error::Error;
use crate::scalar::Scalar;
use ark_bls12_381::Bls12_381;
use ark_bls12_381::Fq12;
use ark_bls12_381::Fr;
use ark_bls12_381::G1Affine;
use ark_bls12_381::G2Affine;
use ark_bls12_381::G2Projective;
use ark_ec::hashing::curve_maps::wb::WBMap;
use ark_ec::hashing::map_to_curve_hasher::MapToCurveBasedHasher;
use ark_ec::hashing::HashToCurve;
use ark_ec::pairing::Pairing;
use ark_ec::AffineRepr;
use ark_ec::CurveGroup;
use ark_ff::field_hashers::DefaultFieldHasher;
use ark_ff::Field;
use ark_ff::PrimeField;
use ark_serialize::CanonicalDeserialize;
use ark_serialize::CanonicalSerialize;
use sha2::Sha256;

verus! {

/// The compressed encoding of the point that
/// `G1Affine::deserialize_compressed` decodes from the bytes `b` (it reads
/// 48 of them), or nothing where it refuses them: they must encode a point
/// of the curve that lies in the prime-order subgroup.
pub uninterp spec fn g1_canonical(b: Seq<u8>) -> Option<Seq<u8>>;

/// The encoding of the sum of the two points that `a` and `b` encode.
pub uninterp spec fn g1_sum(a: Seq<u8>, b: Seq<u8>) -> Seq<u8>;

/// The encoding of the point that `p` encodes, multiplied by the scalar `k`.
pub uninterp spec fn g1_scaled(p: Seq<u8>, k: nat) -> Seq<u8>;

/// Whether `b` is the compressed encoding of a point of the first source group.
pub open spec fn g1_encoding(b: Seq<u8>) -> bool {
    b.len() == 48 && g1_canonical(b) == Some(b)
}

/// The encoding of the generator of the first source group.
pub open spec fn g1_generator() -> Seq<u8> {
    seq![
        0x97u8, 0xf1u8, 0xd3u8, 0xa7u8, 0x31u8, 0x97u8, 0xd7u8, 0x94u8, 0x26u8, 0x95u8, 0x63u8, 0x8cu8,
        0x4fu8, 0xa9u8, 0xacu8, 0x0fu8, 0xc3u8, 0x68u8, 0x8cu8, 0x4fu8, 0x97u8, 0x74u8, 0xb9u8, 0x05u8,
        0xa1u8, 0x4eu8, 0x3au8, 0x3fu8, 0x17u8, 0x1bu8, 0xacu8, 0x58u8, 0x6cu8, 0x55u8, 0xe8u8, 0x3fu8,
        0xf9u8, 0x7au8, 0x1au8, 0xefu8, 0xfbu8, 0x3au8, 0xf0u8, 0x0au8, 0xdbu8, 0x22u8, 0xc6u8, 0xbbu8,
    ]
}

/// The encoding of the identity of the first source group.
pub open spec fn g1_identity() -> Seq<u8> {
    seq![0xc0u8] + zeros(47)
}

/// The encodings of a sequence of points.
pub open spec fn g1_views(s: Seq<G1Point>) -> Seq<Seq<u8>> {
    s.map_values(|p: G1Point| p@)
}

/// A point of the first source group, held in its compressed encoding.
#[derive(Debug, PartialEq, Eq, Hash)]
pub struct G1Point {
    pub(crate) bytes: Vec<u8>,
}

impl View for G1Point {
    type V = Seq<u8>;

    closed spec fn view(&self) -> Seq<u8> {
        self.bytes@
    }
}

impl Clone for G1Point {
    fn clone(&self) -> (out: Self)
        ensures
            out@ == self@,
    {
        proof {
            use_type_invariant(self);
        }
        G1Point { bytes: copy_bytes(&self.bytes) }
    }
}

impl G1Point {
    #[verifier::type_invariant]
    spec fn well_formed(self) -> bool {
        g1_encoding(self.bytes@)
    }

    /// Every point is a valid encoding of 48 bytes.
    pub fn valid(&self)
        ensures
            g1_encoding(self@),
    {
        proof {
            use_type_invariant(self);
        }
    }

    /// The generator.
    pub fn generator() -> (out: Self)
        ensures
            out@ == g1_generator(),
    {
        g1_generator_point()
    }

    /// The identity.
    pub fn identity() -> (out: Self)
        ensures
            out@ == g1_identity(),
    {
        g1_identity_point()
    }

    /// Whether the point is the identity.
    pub fn is_identity(&self) -> (z: bool)
        ensures
            z == (self@ == g1_identity()),
    {
        let id = G1Point::identity();
        bytes_equal(&self.bytes, &id.bytes)
    }

    /// Whether two points are the same.
    pub fn equals(&self, other: &G1Point) -> (same: bool)
        ensures
            same == (self@ == other@),
    {
        bytes_equal(&self.bytes, &other.bytes)
    }

    /// The compressed encoding, 48 bytes.
    pub fn to_bytes(&self) -> (out: Vec<u8>)
        ensures
            out@ == self@,
            out@.len() == 48,
    {
        proof {
            use_type_invariant(self);
        }
        copy_bytes(&self.bytes)
    }

    /// Decodes a point: `InvalidByteLength` unless there are 48 bytes,
    /// `DeserializationError` unless they are the canonical encoding of a
    /// point of the group.
    pub fn from_bytes(bytes: &[u8]) -> (out: Result<G1Point, Error>)
        ensures
            match out {
                Ok(p) => g1_encoding(bytes@) && p@ == bytes@,
                Err(e) => if bytes@.len() != 48 {
                    e == Error::InvalidByteLength(48, bytes@.len() as usize)
                } else {
                    e == Error::DeserializationError && !g1_encoding(bytes@)
                },
            },
    {
        if bytes.len() != 48 {
            return Err(Error::InvalidByteLength(48, bytes.len()));
        }
        let owned = slice_to_bytes(bytes);
        match g1_reencode(&owned) {
            Some(canonical) => {
                if bytes_equal(&canonical, &owned) {
                    Ok(G1Point { bytes: owned })
                } else {
                    Err(Error::DeserializationError)
                }
            },
            None => Err(Error::DeserializationError),
        }
    }

    /// The sum of two points.
    pub fn add(&self, other: &G1Point) -> (out: G1Point)
        ensures
            out@ == g1_sum(self@, other@),
    {
        g1_add(self, other)
    }

    /// The point multiplied by a scalar.
    pub fn mul(&self, k: &Scalar) -> (out: G1Point)
        ensures
            out@ == g1_scaled(self@, k@),
    {
        g1_mul(self, k)
    }
}

/// `G1Affine::deserialize_compressed` on 48 bytes, with its subgroup
/// check, and `serialize_compressed` of what it decoded: the decoder takes
/// more than one encoding of the point at infinity, the encoder gives one.
#[verifier::external_body]
fn g1_reencode(bytes: &Vec<u8>) -> (out: Option<Vec<u8>>)
    requires
        bytes@.len() == 48,
    ensures
        match out {
            Some(canonical) => g1_canonical(bytes@) == Some(canonical@),
            None => g1_canonical(bytes@) is None,
        },
{
    let p = G1Affine::deserialize_compressed(&bytes[..]).ok()?;
    let mut out = Vec::new();
    p.serialize_compressed(&mut out).unwrap();
    Some(out)
}

/// `G1Affine::generator`, serialized: the bytes are those of
/// [`g1_generator`].
#[verifier::external_body]
fn g1_generator_point() -> (out: G1Point)
    ensures
        out@ == g1_generator(),
        g1_encoding(out@),
{
    let mut bytes = Vec::new();
    G1Affine::generator().serialize_compressed(&mut bytes).unwrap();
    G1Point { bytes }
}

/// `G1Affine::zero`, serialized: the point at infinity is encoded as the
/// flag byte `0xc0` followed by zeros.
#[verifier::external_body]
fn g1_identity_point() -> (out: G1Point)
    ensures
        out@ == g1_identity(),
        g1_encoding(out@),
{
    let mut bytes = Vec::new();
    G1Affine::zero().serialize_compressed(&mut bytes).unwrap();
    G1Point { bytes }
}

/// `+` on `G1Affine`, normalized back to affine form: the encoding of the
/// sum depends on the two encodings alone.
#[verifier::external_body]
fn g1_add(a: &G1Point, b: &G1Point) -> (out: G1Point)
    ensures
        out@ == g1_sum(a@, b@),
        g1_encoding(out@),
{
    let p = G1Affine::deserialize_compressed(&a.bytes[..]).unwrap();
    let q = G1Affine::deserialize_compressed(&b.bytes[..]).unwrap();
    let mut bytes = Vec::new();
    (p + q).into_affine().serialize_compressed(&mut bytes).unwrap();
    G1Point { bytes }
}

/// `*` of a `G1Affine` by an `Fr`, normalized back to affine form: the
/// encoding of the multiple depends on the point's encoding and the
/// scalar's value alone.
#[verifier::external_body]
fn g1_mul(a: &G1Point, k: &Scalar) -> (out: G1Point)
    ensures
        out@ == g1_scaled(a@, k@),
        g1_encoding(out@),
{
    let p = G1Affine::deserialize_compressed(&a.bytes[..]).unwrap();
    let s = Fr::deserialize_compressed(&k.bytes[..]).unwrap();
    let mut bytes = Vec::new();
    (p * s).into_affine().serialize_compressed(&mut bytes).unwrap();
    G1Point { bytes }
}

/// The compressed encoding of the point that
/// `G2Affine::deserialize_compressed` decodes from the bytes `b` (it reads
/// 96 of them), or nothing where it refuses them: they must encode a point
/// of the curve that lies in the prime-order subgroup.
pub uninterp spec fn g2_canonical(b: Seq<u8>) -> Option<Seq<u8>>;

/// The encoding of the sum of the two points that `a` and `b` encode.
pub uninterp spec fn g2_sum(a: Seq<u8>, b: Seq<u8>) -> Seq<u8>;

/// The encoding of the point that `p` encodes, multiplied by the scalar `k`.
pub uninterp spec fn g2_scaled(p: Seq<u8>, k: nat) -> Seq<u8>;

/// Whether `b` is the compressed encoding of a point of the second source group.
pub open spec fn g2_encoding(b: Seq<u8>) -> bool {
    b.len() == 96 && g2_canonical(b) == Some(b)
}

/// The encoding of the generator of the second source group.
pub open spec fn g2_generator() -> Seq<u8> {
    seq![
        0x93u8, 0xe0u8, 0x2bu8, 0x60u8, 0x52u8, 0x71u8, 0x9fu8, 0x60u8, 0x7du8, 0xacu8, 0xd3u8, 0xa0u8,
        0x88u8, 0x27u8, 0x4fu8, 0x65u8, 0x59u8, 0x6bu8, 0xd0u8, 0xd0u8, 0x99u8, 0x20u8, 0xb6u8, 0x1au8,
        0xb5u8, 0xdau8, 0x61u8, 0xbbu8, 0xdcu8, 0x7fu8, 0x50u8, 0x49u8, 0x33u8, 0x4cu8, 0xf1u8, 0x12u8,
        0x13u8, 0x94u8, 0x5du8, 0x57u8, 0xe5u8, 0xacu8, 0x7du8, 0x05u8, 0x5du8, 0x04u8, 0x2bu8, 0x7eu8,
        0x02u8, 0x4au8, 0xa2u8, 0xb2u8, 0xf0u8, 0x8fu8, 0x0au8, 0x91u8, 0x26u8, 0x08u8, 0x05u8, 0x27u8,
        0x2du8, 0xc5u8, 0x10u8, 0x51u8, 0xc6u8, 0xe4u8, 0x7au8, 0xd4u8, 0xfau8, 0x40u8, 0x3bu8, 0x02u8,
        0xb4u8, 0x51u8, 0x0bu8, 0x64u8, 0x7au8, 0xe3u8, 0xd1u8, 0x77u8, 0x0bu8, 0xacu8, 0x03u8, 0x26u8,
        0xa8u8, 0x05u8, 0xbbu8, 0xefu8, 0xd4u8, 0x80u8, 0x56u8, 0xc8u8, 0xc1u8, 0x21u8, 0xbdu8, 0xb8u8,
    ]
}

/// The encoding of the identity of the second source group.
pub open spec fn g2_identity() -> Seq<u8> {
    seq![0xc0u8] + zeros(95)
}

/// The encodings of a sequence of points.
pub open spec fn g2_views(s: Seq<G2Point>) -> Seq<Seq<u8>> {
    s.map_values(|p: G2Point| p@)
}

/// A point of the second source group, held in its compressed encoding.
#[derive(Debug, PartialEq, Eq, Hash)]
pub struct G2Point {
    pub(crate) bytes: Vec<u8>,
}

impl View for G2Point {
    type V = Seq<u8>;

    closed spec fn view(&self) -> Seq<u8> {
        self.bytes@
    }
}

impl Clone for G2Point {
    fn clone(&self) -> (out: Self)
        ensures
            out@ == self@,
    {
        proof {
            use_type_invariant(self);
        }
        G2Point { bytes: copy_bytes(&self.bytes) }
    }
}

impl G2Point {
    #[verifier::type_invariant]
    spec fn well_formed(self) -> bool {
        g2_encoding(self.bytes@)
    }

    /// Every point is a valid encoding of 96 bytes.
    pub fn valid(&self)
        ensures
            g2_encoding(self@),
    {
        proof {
            use_type_invariant(self);
        }
    }

    /// The generator.
    pub fn generator() -> (out: Self)
        ensures
            out@ == g2_generator(),
    {
        g2_generator_point()
    }

    /// The identity.
    pub fn identity() -> (out: Self)
        ensures
            out@ == g2_identity(),
    {
        g2_identity_point()
    }

    /// Whether the point is the identity.
    pub fn is_identity(&self) -> (z: bool)
        ensures
            z == (self@ == g2_identity()),
    {
        let id = G2Point::identity();
        bytes_equal(&self.bytes, &id.bytes)
    }

    /// Whether two points are the same.
    pub fn equals(&self, other: &G2Point) -> (same: bool)
        ensures
            same == (self@ == other@),
    {
        bytes_equal(&self.bytes, &other.bytes)
    }

    /// The compressed encoding, 96 bytes.
    pub fn to_bytes(&self) -> (out: Vec<u8>)
        ensures
            out@ == self@,
            out@.len() == 96,
    {
        proof {
            use_type_invariant(self);
        }
        copy_bytes(&self.bytes)
    }

    /// Decodes a point: `InvalidByteLength` unless there are 96 bytes,
    /// `DeserializationError` unless they are the canonical encoding of a
    /// point of the group.
    pub fn from_bytes(bytes: &[u8]) -> (out: Result<G2Point, Error>)
        ensures
            match out {
                Ok(p) => g2_encoding(bytes@) && p@ == bytes@,
                Err(e) => if bytes@.len() != 96 {
                    e == Error::InvalidByteLength(96, bytes@.len() as usize)
                } else {
                    e == Error::DeserializationError && !g2_encoding(bytes@)
                },
            },
    {
        if bytes.len() != 96 {
            return Err(Error::InvalidByteLength(96, bytes.len()));
        }
        let owned = slice_to_bytes(bytes);
        match g2_reencode(&owned) {
            Some(canonical) => {
                if bytes_equal(&canonical, &owned) {
                    Ok(G2Point { bytes: owned })
                } else {
                    Err(Error::DeserializationError)
                }
            },
            None => Err(Error::DeserializationError),
        }
    }

    /// Overwrites the encoding with zeros and drops it.
    pub fn zeroize(self) {
        let mut bytes = self.bytes;
        crate::scalar::wipe_bytes(&mut bytes);
    }

    /// The sum of two points.
    pub fn add(&self, other: &G2Point) -> (out: G2Point)
        ensures
            out@ == g2_sum(self@, other@),
    {
        g2_add(self, other)
    }

    /// The point multiplied by a scalar.
    pub fn mul(&self, k: &Scalar) -> (out: G2Point)
        ensures
            out@ == g2_scaled(self@, k@),
    {
        g2_mul(self, k)
    }
}

/// `G2Affine::deserialize_compressed` on 96 bytes, with its subgroup
/// check, and `serialize_compressed` of what it decoded: the decoder takes
/// more than one encoding of the point at infinity, the encoder gives one.
#[verifier::external_body]
fn g2_reencode(bytes: &Vec<u8>) -> (out: Option<Vec<u8>>)
    requires
        bytes@.len() == 96,
    ensures
        match out {
            Some(canonical) => g2_canonical(bytes@) == Some(canonical@),
            None => g2_canonical(bytes@) is None,
        },
{
    let p = G2Affine::deserialize_compressed(&bytes[..]).ok()?;
    let mut out = Vec::new();
    p.serialize_compressed(&mut out).unwrap();
    Some(out)
}

/// `G2Affine::generator`, serialized: the bytes are those of
/// [`g2_generator`].
#[verifier::external_body]
fn g2_generator_point() -> (out: G2Point)
    ensures
        out@ == g2_generator(),
        g2_encoding(out@),
{
    let mut bytes = Vec::new();
    G2Affine::generator().serialize_compressed(&mut bytes).unwrap();
    G2Point { bytes }
}

/// `G2Affine::zero`, serialized: the point at infinity is encoded as the
/// flag byte `0xc0` followed by zeros.
#[verifier::external_body]
fn g2_identity_point() -> (out: G2Point)
    ensures
        out@ == g2_identity(),
        g2_encoding(out@),
{
    let mut bytes = Vec::new();
    G2Affine::zero().serialize_compressed(&mut bytes).unwrap();
    G2Point { bytes }
}

/// `+` on `G2Affine`, normalized back to affine form: the encoding of the
/// sum depends on the two encodings alone.
#[verifier::external_body]
fn g2_add(a: &G2Point, b: &G2Point) -> (out: G2Point)
    ensures
        out@ == g2_sum(a@, b@),
        g2_encoding(out@),
{
    let p = G2Affine::deserialize_compressed(&a.bytes[..]).unwrap();
    let q = G2Affine::deserialize_compressed(&b.bytes[..]).unwrap();
    let mut bytes = Vec::new();
    (p + q).into_affine().serialize_compressed(&mut bytes).unwrap();
    G2Point { bytes }
}

/// `*` of a `G2Affine` by an `Fr`, normalized back to affine form: the
/// encoding of the multiple depends on the point's encoding and the
/// scalar's value alone.
#[verifier::external_body]
fn g2_mul(a: &G2Point, k: &Scalar) -> (out: G2Point)
    ensures
        out@ == g2_scaled(a@, k@),
        g2_encoding(out@),
{
    let p = G2Affine::deserialize_compressed(&a.bytes[..]).unwrap();
    let s = Fr::deserialize_compressed(&k.bytes[..]).unwrap();
    let mut bytes = Vec::new();
    (p * s).into_affine().serialize_compressed(&mut bytes).unwrap();
    G2Point { bytes }
}

/// The encoding of the point of the second group that the message `msg`
/// hashes to under the domain separation tag `domain`, or nothing where the
/// map to the curve fails.
pub uninterp spec fn g2_hash(domain: Seq<u8>, msg: Seq<u8>) -> Option<Seq<u8>>;

/// `HashToCurve::hash` of the hasher that `MapToCurveBasedHasher::new` makes
/// for the second group, with the SHA-256 field hasher and the
/// Wahby-Boneh map: the point depends on the tag and the message alone.
#[verifier::external_body]
pub(crate) fn hash_to_g2(domain: &Vec<u8>, msg: &Vec<u8>) -> (out: Option<G2Point>)
    ensures
        match out {
            Some(p) => g2_hash(domain@, msg@) == Some(p@),
            None => g2_hash(domain@, msg@) is None,
        },
        out matches Some(p) ==> g2_encoding(p@),
{
    let hasher = MapToCurveBasedHasher::<
        G2Projective,
        DefaultFieldHasher<Sha256, 128>,
        WBMap<ark_bls12_381::g2::Config>,
    >::new(&domain[..]).ok()?;
    let mut bytes = Vec::new();
    hasher.hash(&msg[..]).ok()?.serialize_compressed(&mut bytes).unwrap();
    Some(G2Point { bytes })
}

/// Whether `Fq12::deserialize_compressed` accepts the bytes `b` (it reads
/// 576 of them): each of the twelve base-field coordinates is canonical.
pub uninterp spec fn gt_decodes(b: Seq<u8>) -> bool;

/// The encoding of the pairing of the points that `p` (first group) and `q`
/// (second group) encode.
pub uninterp spec fn pairing_of(p: Seq<u8>, q: Seq<u8>) -> Seq<u8>;

/// The encoding of the product of the two target-field elements that `a`
/// and `b` encode.
pub uninterp spec fn gt_product(a: Seq<u8>, b: Seq<u8>) -> Seq<u8>;

/// The encoding of the target-field element that `a` encodes, raised to `k`.
pub uninterp spec fn gt_power(a: Seq<u8>, k: nat) -> Seq<u8>;

/// Whether `b` is the encoding of an element of the target field.
pub open spec fn gt_encoding(b: Seq<u8>) -> bool {
    b.len() == 576 && gt_decodes(b)
}

/// The encoding of the one of the target field.
pub open spec fn gt_one() -> Seq<u8> {
    seq![1u8] + zeros(575)
}

/// An element of the target field of the pairing, held in its encoding.
#[derive(Debug, PartialEq, Eq, Hash)]
pub struct GtElement {
    pub(crate) bytes: Vec<u8>,
}

impl View for GtElement {
    type V = Seq<u8>;

    closed spec fn view(&self) -> Seq<u8> {
        self.bytes@
    }
}

impl Clone for GtElement {
    fn clone(&self) -> (out: Self)
        ensures
            out@ == self@,
    {
        proof {
            use_type_invariant(self);
        }
        GtElement { bytes: copy_bytes(&self.bytes) }
    }
}

impl GtElement {
    #[verifier::type_invariant]
    spec fn well_formed(self) -> bool {
        gt_encoding(self.bytes@)
    }

    /// Every element is a valid encoding of 576 bytes.
    pub fn valid(&self)
        ensures
            gt_encoding(self@),
    {
        proof {
            use_type_invariant(self);
        }
    }

    /// The one of the field.
    pub fn one() -> (out: Self)
        ensures
            out@ == gt_one(),
    {
        gt_one_element()
    }

    /// Whether two elements are the same.
    pub fn equals(&self, other: &GtElement) -> (same: bool)
        ensures
            same == (self@ == other@),
    {
        bytes_equal(&self.bytes, &other.bytes)
    }

    /// The encoding, 576 bytes.
    pub fn to_bytes(&self) -> (out: Vec<u8>)
        ensures
            out@ == self@,
            out@.len() == 576,
    {
        proof {
            use_type_invariant(self);
        }
        copy_bytes(&self.bytes)
    }

    /// Decodes an element: `InvalidByteLength` unless there are 576 bytes,
    /// `DeserializationError` unless they encode an element of the field.
    pub fn from_bytes(bytes: &[u8]) -> (out: Result<GtElement, Error>)
        ensures
            match out {
                Ok(p) => gt_encoding(bytes@) && p@ == bytes@,
                Err(e) => if bytes@.len() != 576 {
                    e == Error::InvalidByteLength(576, bytes@.len() as usize)
                } else {
                    e == Error::DeserializationError && !gt_encoding(bytes@)
                },
            },
    {
        if bytes.len() != 576 {
            return Err(Error::InvalidByteLength(576, bytes.len()));
        }
        let owned = slice_to_bytes(bytes);
        if !gt_check(&owned) {
            return Err(Error::DeserializationError);
        }
        Ok(GtElement { bytes: owned })
    }

    /// The product of two elements.
    pub fn mul(&self, other: &GtElement) -> (out: GtElement)
        ensures
            out@ == gt_product(self@, other@),
    {
        gt_mul(self, other)
    }

    /// The element raised to a scalar.
    pub fn pow(&self, k: &Scalar) -> (out: GtElement)
        ensures
            out@ == gt_power(self@, k@),
    {
        gt_pow(self, k)
    }

    /// Overwrites the encoding with zeros and drops it.
    pub fn zeroize(self) {
        let mut bytes = self.bytes;
        crate::scalar::wipe_bytes(&mut bytes);
    }
}

/// The pairing of a point of the first group with one of the second.
pub fn pairing(p: &G1Point, q: &G2Point) -> (out: GtElement)
    ensures
        out@ == pairing_of(p@, q@),
{
    pairing_element(p, q)
}

/// `Fq12::deserialize_compressed` on 576 bytes: whether it accepts them.
#[verifier::external_body]
fn gt_check(bytes: &Vec<u8>) -> (ok: bool)
    requires
        bytes@.len() == 576,
    ensures
        ok == gt_decodes(bytes@),
{
    Fq12::deserialize_compressed(&bytes[..]).is_ok()
}

/// `Fq12::ONE`, serialized: the first coordinate is one, the others zero,
/// each in 48 little-endian bytes.
#[verifier::external_body]
fn gt_one_element() -> (out: GtElement)
    ensures
        out@ == gt_one(),
        gt_encoding(out@),
{
    let mut bytes = Vec::new();
    Fq12::ONE.serialize_compressed(&mut bytes).unwrap();
    GtElement { bytes }
}

/// `Bls12_381::pairing`, the target-field element of its output: its
/// encoding depends on the two points' encodings alone.
#[verifier::external_body]
fn pairing_element(p: &G1Point, q: &G2Point) -> (out: GtElement)
    ensures
        out@ == pairing_of(p@, q@),
        gt_encoding(out@),
{
    let a = G1Affine::deserialize_compressed(&p.bytes[..]).unwrap();
    let b = G2Affine::deserialize_compressed(&q.bytes[..]).unwrap();
    let mut bytes = Vec::new();
    Bls12_381::pairing(a, b).0.serialize_compressed(&mut bytes).unwrap();
    GtElement { bytes }
}

/// `*` on `Fq12`: the encoding of the product depends on the two encodings
/// alone.
#[verifier::external_body]
fn gt_mul(a: &GtElement, b: &GtElement) -> (out: GtElement)
    ensures
        out@ == gt_product(a@, b@),
        gt_encoding(out@),
{
    let x = Fq12::deserialize_compressed(&a.bytes[..]).unwrap();
    let y = Fq12::deserialize_compressed(&b.bytes[..]).unwrap();
    let mut bytes = Vec::new();
    (x * y).serialize_compressed(&mut bytes).unwrap();
    GtElement { bytes }
}

/// `Field::pow` on `Fq12` with the big integer of an `Fr`: the encoding of
/// the power depends on the base's encoding and the exponent's value alone.
#[verifier::external_body]
fn gt_pow(a: &GtElement, k: &Scalar) -> (out: GtElement)
    ensures
        out@ == gt_power(a@, k@),
        gt_encoding(out@),
{
    let x = Fq12::deserialize_compressed(&a.bytes[..]).unwrap();
    let s = Fr::deserialize_compressed(&k.bytes[..]).unwrap();
    let mut bytes = Vec::new();
    x.pow(s.into_bigint()).serialize_compressed(&mut bytes).unwrap();
    GtElement { bytes }
}

} // verus!
