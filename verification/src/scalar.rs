//! The scalar field of BLS12-381.
//!
//! A [`Scalar`] holds the canonical 32-byte little-endian encoding of a field
//! element; its view is the integer below the modulus that the bytes spell.
//! The arithmetic is done by `ark-ff`, and each operation states its result
//! as arithmetic modulo [`modulus`].
//!
//! Every scalar holds a canonical encoding: that is the type's invariant,
//! which the decoder establishes and on which the calls into the outside
//! crate rely when they decode their arguments.

use vstd::prelude::*;
use crate::bytes::{bytes_equal, copy_bytes, le_value, lemma_le_value_injective, lemma_le_value_zeros, zero_bytes, zeros, slice_to_bytes};
use crate::error::Error;
use ark_bls12_381::Fr;
use ark_ff::Field;
use ark_ff::UniformRand;
use ark_serialize::CanonicalDeserialize;
use ark_serialize::CanonicalSerialize;
use rand::rngs::StdRng;

verus! {

/// The seedable generator that every sampling operation draws from.
#[verifier::external_type_specification]
#[verifier::external_body]
pub struct ExStdRng(StdRng);

/// The order of the scalar field.
pub open spec fn modulus() -> nat {
    0x73eda753299d7d483339d80809a1d80553bda402fffe5bfeffffffff00000001nat
}

/// The length of an encoded scalar.
pub const SCALAR_SIZE: usize = 32;

/// Whether `b` is the canonical encoding of a scalar.
pub open spec fn scalar_encoding(b: Seq<u8>) -> bool {
    b.len() == 32 && le_value(b) < modulus()
}

/// Addition in the field.
pub open spec fn fadd(a: nat, b: nat) -> nat {
    (a + b) % modulus()
}

/// Subtraction in the field.
pub open spec fn fsub(a: nat, b: nat) -> nat {
    ((a % modulus()) + modulus() - (b % modulus())) as nat % modulus()
}

/// Multiplication in the field.
pub open spec fn fmul(a: nat, b: nat) -> nat {
    (a * b) % modulus()
}

/// The multiplicative inverse of `a`, where it has one.
pub open spec fn finv(a: nat) -> nat {
    choose|b: nat| b < modulus() && fmul(a, b) == 1
}

/// The values of a sequence of scalars.
pub open spec fn scalar_views(s: Seq<Scalar>) -> Seq<nat> {
    s.map_values(|x: Scalar| x@)
}

/// An element of the scalar field.
#[derive(Debug, PartialEq, Eq, Hash)]
pub struct Scalar {
    pub(crate) bytes: Vec<u8>,
}

impl View for Scalar {
    type V = nat;

    open spec fn view(&self) -> nat {
        le_value(self.encoding())
    }
}

impl Clone for Scalar {
    fn clone(&self) -> (out: Self)
        ensures
            out.encoding() == self.encoding(),
            out@ == self@,
    {
        proof {
            use_type_invariant(self);
        }
        Scalar { bytes: copy_bytes(&self.bytes) }
    }
}

impl Scalar {
    #[verifier::type_invariant]
    spec fn well_formed(self) -> bool {
        scalar_encoding(self.bytes@)
    }

    /// The 32 bytes that encode the scalar.
    pub closed spec fn encoding(&self) -> Seq<u8> {
        self.bytes@
    }

    /// Every scalar is below the modulus and 32 bytes long.
    pub fn canonical(&self)
        ensures
            scalar_encoding(self.encoding()),
            self@ < modulus(),
    {
        proof {
            use_type_invariant(self);
        }
    }

    /// The zero of the field.
    pub fn zero() -> (out: Self)
        ensures
            out@ == 0,
            out.encoding() == zeros(32),
    {
        let bytes = zero_bytes(32);
        proof {
            lemma_le_value_zeros(32);
        }
        Scalar { bytes }
    }

    /// The one of the field.
    pub fn one() -> (out: Self)
        ensures
            out@ == 1,
            out.encoding() == seq![1u8] + zeros(31),
    {
        let mut bytes: Vec<u8> = Vec::new();
        bytes.push(1u8);
        let rest = zero_bytes(31);
        crate::bytes::append_bytes(&mut bytes, &rest);
        proof {
            lemma_le_value_zeros(31);
            assert(bytes@.drop_first() =~= zeros(31));
        }
        Scalar { bytes }
    }

    /// Whether the scalar is zero.
    pub fn is_zero(&self) -> (z: bool)
        ensures
            z == (self@ == 0),
    {
        let zero = Scalar::zero();
        self.equals(&zero)
    }

    /// Whether two scalars are the same field element.
    pub fn equals(&self, other: &Scalar) -> (same: bool)
        ensures
            same == (self@ == other@),
            same == (self.encoding() == other.encoding()),
    {
        proof {
            use_type_invariant(self);
            use_type_invariant(other);
            if self@ == other@ {
                lemma_le_value_injective(self.bytes@, other.bytes@);
            }
        }
        bytes_equal(&self.bytes, &other.bytes)
    }

    /// The canonical encoding: 32 bytes, little-endian.
    pub fn to_bytes(&self) -> (out: Vec<u8>)
        ensures
            out@ == self.encoding(),
            out@.len() == 32,
    {
        proof {
            use_type_invariant(self);
        }
        copy_bytes(&self.bytes)
    }

    /// Decodes a scalar: `InvalidByteLength` unless there are 32 bytes,
    /// `DeserializationError` unless they spell a value below the modulus.
    pub fn from_bytes(bytes: &[u8]) -> (out: Result<Scalar, Error>)
        ensures
            match out {
                Ok(s) => scalar_encoding(bytes@) && s.encoding() == bytes@,
                Err(e) => if bytes@.len() != 32 {
                    e == Error::InvalidByteLength(32, bytes@.len() as usize)
                } else {
                    e == Error::DeserializationError && !scalar_encoding(bytes@)
                },
            },
    {
        if bytes.len() != SCALAR_SIZE {
            return Err(Error::InvalidByteLength(SCALAR_SIZE, bytes.len()));
        }
        let owned = slice_to_bytes(bytes);
        if !field_is_canonical(&owned) {
            return Err(Error::DeserializationError);
        }
        Ok(Scalar { bytes: owned })
    }

    /// The sum of two scalars.
    pub fn add(&self, other: &Scalar) -> (out: Scalar)
        ensures
            out@ == fadd(self@, other@),
    {
        field_add(self, other)
    }

    /// The difference of two scalars.
    pub fn sub(&self, other: &Scalar) -> (out: Scalar)
        ensures
            out@ == fsub(self@, other@),
    {
        field_sub(self, other)
    }

    /// The product of two scalars.
    pub fn mul(&self, other: &Scalar) -> (out: Scalar)
        ensures
            out@ == fmul(self@, other@),
    {
        field_mul(self, other)
    }

    /// The inverse of a scalar; none for zero.
    pub fn inverse(&self) -> (out: Option<Scalar>)
        ensures
            out is None <==> self@ == 0,
            out matches Some(inv) ==> inv@ == finv(self@) && fmul(self@, inv@) == 1,
    {
        field_inverse(self)
    }

    /// A scalar drawn from `rng`.
    pub fn random(rng: &mut StdRng) -> (out: Scalar)
        ensures
            out@ < modulus(),
    {
        field_random(rng)
    }

    /// Overwrites the encoding with zeros and drops it.
    pub fn zeroize(self) {
        let mut bytes = self.bytes;
        wipe_bytes(&mut bytes);
    }
}

/// `Fr::deserialize_compressed` on 32 bytes: it accepts them exactly when
/// the little-endian value they spell is below the field's modulus.
#[verifier::external_body]
fn field_is_canonical(bytes: &Vec<u8>) -> (ok: bool)
    requires
        bytes@.len() == 32,
    ensures
        ok == (le_value(bytes@) < modulus()),
{
    Fr::deserialize_compressed(&bytes[..]).is_ok()
}

/// `Fr`'s `+`: the sum modulo the field's order, in canonical encoding.
#[verifier::external_body]
fn field_add(a: &Scalar, b: &Scalar) -> (out: Scalar)
    ensures
        out@ == fadd(a@, b@),
        scalar_encoding(out.encoding()),
{
    let x = Fr::deserialize_compressed(&a.bytes[..]).unwrap();
    let y = Fr::deserialize_compressed(&b.bytes[..]).unwrap();
    let mut bytes = Vec::new();
    (x + y).serialize_compressed(&mut bytes).unwrap();
    Scalar { bytes }
}

/// `Fr`'s `-`: the difference modulo the field's order, in canonical encoding.
#[verifier::external_body]
fn field_sub(a: &Scalar, b: &Scalar) -> (out: Scalar)
    ensures
        out@ == fsub(a@, b@),
        scalar_encoding(out.encoding()),
{
    let x = Fr::deserialize_compressed(&a.bytes[..]).unwrap();
    let y = Fr::deserialize_compressed(&b.bytes[..]).unwrap();
    let mut bytes = Vec::new();
    (x - y).serialize_compressed(&mut bytes).unwrap();
    Scalar { bytes }
}

/// `Fr`'s `*`: the product modulo the field's order, in canonical encoding.
#[verifier::external_body]
fn field_mul(a: &Scalar, b: &Scalar) -> (out: Scalar)
    ensures
        out@ == fmul(a@, b@),
        scalar_encoding(out.encoding()),
{
    let x = Fr::deserialize_compressed(&a.bytes[..]).unwrap();
    let y = Fr::deserialize_compressed(&b.bytes[..]).unwrap();
    let mut bytes = Vec::new();
    (x * y).serialize_compressed(&mut bytes).unwrap();
    Scalar { bytes }
}

/// `Field::inverse` on `Fr`: none for zero, else the one element whose
/// product with the argument is one.
#[verifier::external_body]
fn field_inverse(a: &Scalar) -> (out: Option<Scalar>)
    ensures
        out is None <==> a@ == 0,
        out matches Some(inv) ==> inv@ == finv(a@) && fmul(a@, inv@) == 1,
        out matches Some(inv) ==> scalar_encoding(inv.encoding()),
{
    let x = Fr::deserialize_compressed(&a.bytes[..]).unwrap();
    let y = x.inverse()?;
    let mut bytes = Vec::new();
    y.serialize_compressed(&mut bytes).unwrap();
    Some(Scalar { bytes })
}

/// `UniformRand::rand` on `Fr`: some field element, which one depends on
/// the generator's state.
#[verifier::external_body]
fn field_random(rng: &mut StdRng) -> (out: Scalar)
    ensures
        scalar_encoding(out.encoding()),
{
    let mut bytes = Vec::new();
    Fr::rand(rng).serialize_compressed(&mut bytes).unwrap();
    Scalar { bytes }
}

/// `Zeroize::zeroize` on a `Vec<u8>`: every byte is overwritten with zero
/// and the vector is left empty.
#[verifier::external_body]
pub(crate) fn wipe_bytes(bytes: &mut Vec<u8>)
    ensures
        final(bytes)@.len() == 0,
{
    zeroize::Zeroize::zeroize(bytes);
}

} // verus!
