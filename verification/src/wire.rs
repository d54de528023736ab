//! The wire format: lengths and indices as 32-bit little-endian integers,
//! group elements in their compressed encodings, fields in their order.
//!
//! Every type has an encoder, a decoder that accepts exactly the encodings
//! of well-formed values, and the law that decoding an encoding gives the
//! value back.

use vstd::prelude::*;
use vstd::bytes::{
    lemma_auto_spec_u32_to_from_le_bytes,
    spec_u32_from_le_bytes,
    spec_u32_to_le_bytes,
    u32_from_le_bytes,
    u32_to_le_bytes,
};
use crate::bytes::{append_bytes, copy_bytes};
use crate::ciphertext::{Ciphertext, CiphertextView};
use crate::curve::{
    g1_encoding,
    g1_views,
    g2_encoding,
    g2_views,
    gt_encoding,
    G1Point,
    G2Point,
    GtElement,
};
use crate::decryption::{
    DecryptionSharePrecomputed,
    DecryptionSharePrecomputedView,
    DecryptionShareSimple,
    DecryptionShareSimpleView,
    ValidatorShareChecksum,
};
use crate::error::Error;
use crate::pvss::{PubliclyVerifiableSS, TranscriptView};
use crate::index_map::{strictly_increasing, IndexMap};
use crate::refresh::{HandoverTranscript, ShareUpdate, UpdateTranscript};

verus! {

/// The length of an encoded point of the first group.
pub const G1_SIZE: usize = 48;

/// The length of an encoded point of the second group.
pub const G2_SIZE: usize = 96;

/// The length of an encoded element of the target field.
pub const GT_SIZE: usize = 576;

/// The parts one after another.
pub open spec fn joined(parts: Seq<Seq<u8>>) -> Seq<u8>
    decreases parts.len(),
{
    if parts.len() == 0 {
        Seq::empty()
    } else {
        joined(parts.drop_last()) + parts.last()
    }
}

/// Whether every part has the length `width`.
pub open spec fn uniform(parts: Seq<Seq<u8>>, width: nat) -> bool {
    forall|i: int| 0 <= i < parts.len() ==> (#[trigger] parts[i]).len() == width
}

/// The `i`-th of the parts of length `width` that start at `at`.
pub open spec fn chunk(b: Seq<u8>, at: int, width: nat, i: int) -> Seq<u8> {
    b.subrange(at + i * width, at + i * width + width)
}

/// The first `count` parts of length `width` that start at `at`.
pub open spec fn chunks(b: Seq<u8>, at: int, width: nat, count: nat) -> Seq<Seq<u8>> {
    Seq::new(count, |i: int| chunk(b, at, width, i))
}

/// The 32-bit integer that the four bytes at `at` spell.
pub open spec fn u32_at(b: Seq<u8>, at: int) -> u32 {
    spec_u32_from_le_bytes(b.subrange(at, at + 4))
}

/// A 32-bit integer in four little-endian bytes.
pub open spec fn encoded_u32(x: u32) -> Seq<u8> {
    spec_u32_to_le_bytes(x)
}

/// A length as the decoder reports it: the largest where it does not fit.
pub open spec fn reported(n: nat) -> usize {
    if n > usize::MAX {
        usize::MAX
    } else {
        n as usize
    }
}

/// Uniform parts joined have the length of their number times their width.
pub proof fn lemma_joined_len(parts: Seq<Seq<u8>>, width: nat)
    requires
        uniform(parts, width),
    ensures
        joined(parts).len() == parts.len() * width,
    decreases parts.len(),
{
    if parts.len() > 0 {
        assert(uniform(parts.drop_last(), width)) by {
            assert forall|i: int| 0 <= i < parts.drop_last().len() implies (
            #[trigger] parts.drop_last()[i]).len() == width by {
                assert(parts.drop_last()[i] == parts[i]);
            }
        }
        lemma_joined_len(parts.drop_last(), width);
        assert(parts.last().len() == width);
        assert((parts.len() - 1) * width + width == parts.len() * width) by (nonlinear_arith);
    } else {
        assert(0 * width == 0) by (nonlinear_arith);
    }
}

/// The parts of what uniform parts join to, between a prefix and a suffix,
/// are the parts.
pub proof fn lemma_chunks_of_joined(prefix: Seq<u8>, parts: Seq<Seq<u8>>, suffix: Seq<u8>, width: nat)
    requires
        uniform(parts, width),
    ensures
        chunks(prefix + joined(parts) + suffix, prefix.len() as int, width, parts.len()) == parts,
    decreases parts.len(),
{
    let b = prefix + joined(parts) + suffix;
    let at = prefix.len() as int;
    lemma_joined_len(parts, width);
    assert forall|i: int| 0 <= i < parts.len() implies chunk(b, at, width, i) == parts[i] by {
        lemma_chunk_of_joined(parts, width, i);
        let j = joined(parts);
        assert(i * width + width <= parts.len() * width) by (nonlinear_arith)
            requires
                0 <= i < parts.len(),
        ;
        assert(0 <= i * width) by (nonlinear_arith)
            requires
                0 <= i,
        ;
        assert(chunk(b, at, width, i) =~= j.subrange(i * width, i * width + width));
    }
    assert(chunks(b, at, width, parts.len()) =~= parts);
}

/// The `i`-th part of what uniform parts join to is the `i`-th part.
pub proof fn lemma_chunk_of_joined(parts: Seq<Seq<u8>>, width: nat, i: int)
    requires
        uniform(parts, width),
        0 <= i < parts.len(),
    ensures
        joined(parts).subrange(i * width, i * width + width) == parts[i],
    decreases parts.len(),
{
    let init = parts.drop_last();
    assert(uniform(init, width)) by {
        assert forall|k: int| 0 <= k < init.len() implies (#[trigger] init[k]).len() == width by {
            assert(init[k] == parts[k]);
        }
    }
    lemma_joined_len(init, width);
    assert(parts.last().len() == width);
    if i == parts.len() - 1 {
        assert(joined(parts).subrange(i * width, i * width + width) =~= parts[i]);
    } else {
        lemma_chunk_of_joined(init, width, i);
        assert(i * width + width <= init.len() * width) by (nonlinear_arith)
            requires
                0 <= i < init.len(),
        ;
        assert(0 <= i * width) by (nonlinear_arith)
            requires
                0 <= i,
        ;
        assert(joined(parts).subrange(i * width, i * width + width) =~= joined(init).subrange(
            i * width,
            i * width + width,
        ));
        assert(init[i] == parts[i]);
    }
}

/// The integer at the end of a prefix, where its encoding follows.
pub proof fn lemma_u32_after(prefix: Seq<u8>, x: u32, suffix: Seq<u8>)
    ensures
        u32_at(prefix + encoded_u32(x) + suffix, prefix.len() as int) == x,
        encoded_u32(x).len() == 4,
{
    lemma_auto_spec_u32_to_from_le_bytes();
    let b = prefix + encoded_u32(x) + suffix;
    assert(b.subrange(prefix.len() as int, (prefix.len() + 4) as int) =~= encoded_u32(x));
}

/// The bytes of a slice from `from` up to `to`.
pub fn slice_range(src: &[u8], from: usize, to: usize) -> (out: Vec<u8>)
    requires
        from <= to <= src@.len(),
    ensures
        out@ == src@.subrange(from as int, to as int),
{
    let mut out: Vec<u8> = Vec::new();
    let mut i: usize = from;
    while i < to
        invariant
            from <= i <= to <= src@.len(),
            out@ == src@.subrange(from as int, i as int),
        decreases to - i,
    {
        out.push(src[i]);
        assert(src@.subrange(from as int, i as int).push(src@[i as int]) =~= src@.subrange(
            from as int,
            i + 1,
        ));
        i += 1;
    }
    out
}

/// Appends a 32-bit integer in four little-endian bytes.
pub fn write_u32(out: &mut Vec<u8>, x: u32)
    ensures
        final(out)@ == old(out)@ + encoded_u32(x),
{
    let bytes = u32_to_le_bytes(x);
    append_bytes(out, &bytes);
}

/// The 32-bit integer that the four bytes at `at` spell.
pub fn read_u32(bytes: &[u8], at: usize) -> (out: u32)
    requires
        at + 4 <= bytes@.len(),
    ensures
        out == u32_at(bytes@, at as int),
{
    let total = bytes.len();
    let four = slice_range(bytes, at, at + 4);
    u32_from_le_bytes(four.as_slice())
}

/// Whether every part encodes a point of the first group.
pub open spec fn all_g1(parts: Seq<Seq<u8>>) -> bool {
    forall|i: int| 0 <= i < parts.len() ==> g1_encoding(#[trigger] parts[i])
}

/// Whether every part encodes a point of the second group.
pub open spec fn all_g2(parts: Seq<Seq<u8>>) -> bool {
    forall|i: int| 0 <= i < parts.len() ==> g2_encoding(#[trigger] parts[i])
}

/// Appends the encodings of the points.
pub fn write_g1_points(out: &mut Vec<u8>, points: &Vec<G1Point>)
    ensures
        final(out)@ == old(out)@ + joined(g1_views(points@)),
        uniform(g1_views(points@), 48),
        all_g1(g1_views(points@)),
{
    let ghost views = g1_views(points@);
    let mut i: usize = 0;
    assert(joined(views.subrange(0, 0)) =~= Seq::<u8>::empty());
    while i < points.len()
        invariant
            i <= points@.len(),
            views == g1_views(points@),
            out@ == old(out)@ + joined(views.subrange(0, i as int)),
            forall|k: int| 0 <= k < i ==> (#[trigger] views[k]).len() == 48,
            forall|k: int| 0 <= k < i ==> g1_encoding(#[trigger] views[k]),
        decreases points@.len() - i,
    {
        points[i].valid();
        let encoded = points[i].to_bytes();
        assert(views[i as int] == points@[i as int]@);
        append_bytes(out, &encoded);
        assert(views.subrange(0, i + 1).drop_last() =~= views.subrange(0, i as int));
        assert(views.subrange(0, i + 1).last() == views[i as int]);
        i += 1;
    }
    assert(views.subrange(0, views.len() as int) =~= views);
}

/// Appends the encodings of the points.
pub fn write_g2_points(out: &mut Vec<u8>, points: &Vec<G2Point>)
    ensures
        final(out)@ == old(out)@ + joined(g2_views(points@)),
        uniform(g2_views(points@), 96),
        all_g2(g2_views(points@)),
{
    let ghost views = g2_views(points@);
    let mut i: usize = 0;
    assert(joined(views.subrange(0, 0)) =~= Seq::<u8>::empty());
    while i < points.len()
        invariant
            i <= points@.len(),
            views == g2_views(points@),
            out@ == old(out)@ + joined(views.subrange(0, i as int)),
            forall|k: int| 0 <= k < i ==> (#[trigger] views[k]).len() == 96,
            forall|k: int| 0 <= k < i ==> g2_encoding(#[trigger] views[k]),
        decreases points@.len() - i,
    {
        points[i].valid();
        let encoded = points[i].to_bytes();
        assert(views[i as int] == points@[i as int]@);
        append_bytes(out, &encoded);
        assert(views.subrange(0, i + 1).drop_last() =~= views.subrange(0, i as int));
        assert(views.subrange(0, i + 1).last() == views[i as int]);
        i += 1;
    }
    assert(views.subrange(0, views.len() as int) =~= views);
}

/// Decodes `count` points of the first group that start at `at`:
/// `DeserializationError` unless every one decodes.
pub fn read_g1_points(bytes: &[u8], at: usize, count: usize) -> (out: Result<Vec<G1Point>, Error>)
    requires
        at + 48 * count <= bytes@.len(),
    ensures
        match out {
            Ok(points) => all_g1(chunks(bytes@, at as int, 48, count as nat)) && g1_views(points@)
                == chunks(bytes@, at as int, 48, count as nat),
            Err(e) => e == Error::DeserializationError && !all_g1(
                chunks(bytes@, at as int, 48, count as nat),
            ),
        },
{
    let ghost parts = chunks(bytes@, at as int, 48, count as nat);
    let total = bytes.len();
    let mut points: Vec<G1Point> = Vec::new();
    let mut i: usize = 0;
    while i < count
        invariant
            i <= count,
            at + 48 * count <= bytes@.len() <= usize::MAX,
            parts == chunks(bytes@, at as int, 48, count as nat),
            points@.len() == i,
            forall|k: int| 0 <= k < i ==> (#[trigger] points@[k])@ == parts[k],
            forall|k: int| 0 <= k < i ==> g1_encoding(#[trigger] parts[k]),
        decreases count - i,
    {
        let from = at + 48 * i;
        let part = slice_range(bytes, from, from + 48);
        assert(part@ == parts[i as int]);
        match G1Point::from_bytes(part.as_slice()) {
            Ok(p) => {
                points.push(p);
            },
            Err(_) => {
                assert(!g1_encoding(parts[i as int]));
                return Err(Error::DeserializationError);
            },
        }
        i += 1;
    }
    assert(g1_views(points@) =~= parts);
    Ok(points)
}

/// Decodes `count` points of the second group that start at `at`:
/// `DeserializationError` unless every one decodes.
pub fn read_g2_points(bytes: &[u8], at: usize, count: usize) -> (out: Result<Vec<G2Point>, Error>)
    requires
        at + 96 * count <= bytes@.len(),
    ensures
        match out {
            Ok(points) => all_g2(chunks(bytes@, at as int, 96, count as nat)) && g2_views(points@)
                == chunks(bytes@, at as int, 96, count as nat),
            Err(e) => e == Error::DeserializationError && !all_g2(
                chunks(bytes@, at as int, 96, count as nat),
            ),
        },
{
    let ghost parts = chunks(bytes@, at as int, 96, count as nat);
    let total = bytes.len();
    let mut points: Vec<G2Point> = Vec::new();
    let mut i: usize = 0;
    while i < count
        invariant
            i <= count,
            at + 96 * count <= bytes@.len() <= usize::MAX,
            parts == chunks(bytes@, at as int, 96, count as nat),
            points@.len() == i,
            forall|k: int| 0 <= k < i ==> (#[trigger] points@[k])@ == parts[k],
            forall|k: int| 0 <= k < i ==> g2_encoding(#[trigger] parts[k]),
        decreases count - i,
    {
        let from = at + 96 * i;
        let part = slice_range(bytes, from, from + 96);
        assert(part@ == parts[i as int]);
        match G2Point::from_bytes(part.as_slice()) {
            Ok(p) => {
                points.push(p);
            },
            Err(_) => {
                assert(!g2_encoding(parts[i as int]));
                return Err(Error::DeserializationError);
            },
        }
        i += 1;
    }
    assert(g2_views(points@) =~= parts);
    Ok(points)
}

/// Decodes the point of the first group in the 48 bytes at `at`.
pub fn read_g1(bytes: &[u8], at: usize) -> (out: Result<G1Point, Error>)
    requires
        at + 48 <= bytes@.len(),
    ensures
        match out {
            Ok(p) => g1_encoding(bytes@.subrange(at as int, at + 48)) && p@ == bytes@.subrange(
                at as int,
                at + 48,
            ),
            Err(e) => e == Error::DeserializationError && !g1_encoding(
                bytes@.subrange(at as int, at + 48),
            ),
        },
{
    let total = bytes.len();
    let part = slice_range(bytes, at, at + 48);
    match G1Point::from_bytes(part.as_slice()) {
        Ok(p) => Ok(p),
        Err(_) => Err(Error::DeserializationError),
    }
}

/// Decodes the point of the second group in the 96 bytes at `at`.
pub fn read_g2(bytes: &[u8], at: usize) -> (out: Result<G2Point, Error>)
    requires
        at + 96 <= bytes@.len(),
    ensures
        match out {
            Ok(p) => g2_encoding(bytes@.subrange(at as int, at + 96)) && p@ == bytes@.subrange(
                at as int,
                at + 96,
            ),
            Err(e) => e == Error::DeserializationError && !g2_encoding(
                bytes@.subrange(at as int, at + 96),
            ),
        },
{
    let total = bytes.len();
    let part = slice_range(bytes, at, at + 96);
    match G2Point::from_bytes(part.as_slice()) {
        Ok(p) => Ok(p),
        Err(_) => Err(Error::DeserializationError),
    }
}

/// Decodes the element of the target field in the 576 bytes at `at`.
pub fn read_gt(bytes: &[u8], at: usize) -> (out: Result<GtElement, Error>)
    requires
        at + 576 <= bytes@.len(),
    ensures
        match out {
            Ok(p) => gt_encoding(bytes@.subrange(at as int, at + 576)) && p@ == bytes@.subrange(
                at as int,
                at + 576,
            ),
            Err(e) => e == Error::DeserializationError && !gt_encoding(
                bytes@.subrange(at as int, at + 576),
            ),
        },
{
    let total = bytes.len();
    let part = slice_range(bytes, at, at + 576);
    match GtElement::from_bytes(part.as_slice()) {
        Ok(p) => Ok(p),
        Err(_) => Err(Error::DeserializationError),
    }
}

fn report(n: u64) -> (out: usize)
    ensures
        out == reported(n as nat),
{
    if n > usize::MAX as u64 {
        usize::MAX
    } else {
        n as usize
    }
}

// Transcripts

/// The encoding of a transcript: the number of commitments, the
/// commitments, the number of shares, the shares, the proof of knowledge.
pub open spec fn encoded_transcript(t: TranscriptView) -> Seq<u8> {
    encoded_u32(t.coeffs.len() as u32) + joined(t.coeffs) + encoded_u32(t.shares.len() as u32)
        + joined(t.shares) + t.sigma
}

/// Whether a transcript can be encoded: its counts fit 32 bits, and its
/// parts are encodings of points.
pub open spec fn transcript_encodable(t: TranscriptView) -> bool {
    &&& t.coeffs.len() <= u32::MAX
    &&& t.shares.len() <= u32::MAX
    &&& all_g1(t.coeffs)
    &&& all_g2(t.shares)
    &&& g2_encoding(t.sigma)
}

/// The length of a transcript of `coeffs` commitments and `shares` shares.
pub open spec fn transcript_length(coeffs: nat, shares: nat) -> nat {
    8 + 48 * coeffs + 96 * shares + 96
}

/// What a byte string decodes to as a transcript: `InvalidByteLength`,
/// with the length that was needed, where the string ends before a count,
/// before the end of the commitments, or elsewhere than at the end of the
/// proof of knowledge; `DeserializationError` where a part is no point.
pub open spec fn decoded_transcript(b: Seq<u8>) -> Result<TranscriptView, Error> {
    if b.len() < 4 {
        Err(Error::InvalidByteLength(4, b.len() as usize))
    } else {
        let coeffs = u32_at(b, 0) as nat;
        if b.len() < 8 + 48 * coeffs {
            Err(Error::InvalidByteLength(reported(8 + 48 * coeffs), b.len() as usize))
        } else {
            let shares = u32_at(b, (4 + 48 * coeffs) as int) as nat;
            let total = transcript_length(coeffs, shares);
            if b.len() != total {
                Err(Error::InvalidByteLength(reported(total), b.len() as usize))
            } else {
                let t = TranscriptView {
                    coeffs: chunks(b, 4, 48, coeffs),
                    shares: chunks(b, (8 + 48 * coeffs) as int, 96, shares),
                    sigma: b.subrange(total - 96, total as int),
                };
                if all_g1(t.coeffs) && all_g2(t.shares) && g2_encoding(t.sigma) {
                    Ok(t)
                } else {
                    Err(Error::DeserializationError)
                }
            }
        }
    }
}

/// Decoding the encoding of a transcript gives the transcript back.
pub proof fn lemma_transcript_round_trip(t: TranscriptView)
    requires
        transcript_encodable(t),
    ensures
        decoded_transcript(encoded_transcript(t)) == Ok::<TranscriptView, Error>(t),
{
    let b = encoded_transcript(t);
    let c = t.coeffs.len();
    let s = t.shares.len();
    lemma_auto_spec_u32_to_from_le_bytes();
    assert(uniform(t.coeffs, 48));
    assert(uniform(t.shares, 96));
    lemma_joined_len(t.coeffs, 48);
    lemma_joined_len(t.shares, 96);
    assert(g2_encoding(t.sigma));
    let front0 = Seq::<u8>::empty();
    let rest0 = joined(t.coeffs) + encoded_u32(s as u32) + joined(t.shares) + t.sigma;
    assert(b =~= front0 + encoded_u32(c as u32) + rest0);
    lemma_u32_after(front0, c as u32, rest0);
    assert(u32_at(b, 0) == c);
    let front1 = encoded_u32(c as u32);
    let rest1 = encoded_u32(s as u32) + joined(t.shares) + t.sigma;
    assert(b =~= front1 + joined(t.coeffs) + rest1);
    lemma_chunks_of_joined(front1, t.coeffs, rest1, 48);
    let front2 = encoded_u32(c as u32) + joined(t.coeffs);
    let rest2 = joined(t.shares) + t.sigma;
    assert(b =~= front2 + encoded_u32(s as u32) + rest2);
    lemma_u32_after(front2, s as u32, rest2);
    assert(u32_at(b, (4 + 48 * c) as int) == s);
    let front3 = front2 + encoded_u32(s as u32);
    assert(b =~= front3 + joined(t.shares) + t.sigma);
    lemma_chunks_of_joined(front3, t.shares, t.sigma, 96);
    let total = transcript_length(c, s);
    assert(b.len() == total);
    assert(b.subrange(total - 96, total as int) =~= t.sigma);
    let d = TranscriptView {
        coeffs: chunks(b, 4, 48, c),
        shares: chunks(b, (8 + 48 * c) as int, 96, s),
        sigma: b.subrange(total - 96, total as int),
    };
    assert(d == t);
}

impl<T> PubliclyVerifiableSS<T> {
    /// The encoding of the transcript; `InvalidByteLength` where it holds
    /// more commitments or shares than a 32-bit count can say.
    pub fn to_bytes(&self) -> (out: Result<Vec<u8>, Error>)
        ensures
            match out {
                Ok(bytes) => transcript_encodable(self@) && bytes@ == encoded_transcript(self@),
                Err(e) => !transcript_encodable(self@) && e == Error::InvalidByteLength(
                    u32::MAX as usize,
                    if self@.coeffs.len() > u32::MAX {
                        self@.coeffs.len() as usize
                    } else {
                        self@.shares.len() as usize
                    },
                ),
            },
    {
        if self.coeffs.len() > u32::MAX as usize {
            return Err(Error::InvalidByteLength(u32::MAX as usize, self.coeffs.len()));
        }
        if self.shares.len() > u32::MAX as usize {
            return Err(Error::InvalidByteLength(u32::MAX as usize, self.shares.len()));
        }
        let mut out: Vec<u8> = Vec::new();
        write_u32(&mut out, self.coeffs.len() as u32);
        write_g1_points(&mut out, &self.coeffs);
        write_u32(&mut out, self.shares.len() as u32);
        write_g2_points(&mut out, &self.shares);
        self.sigma.valid();
        let sigma = self.sigma.to_bytes();
        append_bytes(&mut out, &sigma);
        assert(out@ =~= encoded_transcript(self@));
        Ok(out)
    }

    /// Decodes a transcript.
    pub fn from_bytes(bytes: &[u8]) -> (out: Result<Self, Error>)
        ensures
            match out {
                Ok(t) => decoded_transcript(bytes@) == Ok::<TranscriptView, Error>(t@),
                Err(e) => decoded_transcript(bytes@) == Err::<TranscriptView, Error>(e),
            },
    {
        let n = bytes.len();
        if n < 4 {
            return Err(Error::InvalidByteLength(4, n));
        }
        let coeffs = read_u32(bytes, 0);
        let after_coeffs: u64 = 8 + 48 * (coeffs as u64);
        if (n as u64) < after_coeffs {
            return Err(Error::InvalidByteLength(report(after_coeffs), n));
        }
        let shares_at = 4 + 48 * (coeffs as usize);
        let shares = read_u32(bytes, shares_at);
        let total: u64 = after_coeffs + 96 * (shares as u64) + 96;
        if n as u64 != total {
            return Err(Error::InvalidByteLength(report(total), n));
        }
        let coeff_points = match read_g1_points(bytes, 4, coeffs as usize) {
            Ok(points) => points,
            Err(e) => {
                return Err(e);
            },
        };
        let share_points = match read_g2_points(bytes, shares_at + 4, shares as usize) {
            Ok(points) => points,
            Err(e) => {
                return Err(e);
            },
        };
        let sigma = match read_g2(bytes, n - 96) {
            Ok(p) => p,
            Err(e) => {
                return Err(e);
            },
        };
        Ok(PubliclyVerifiableSS::from_parts(coeff_points, share_points, sigma))
    }
}

// Ciphertexts

/// The encoding of a ciphertext: the commitment, the authentication tag,
/// the length of the payload, the payload.
pub open spec fn encoded_ciphertext(c: CiphertextView) -> Seq<u8> {
    c.commitment + c.auth_tag + encoded_u32(c.ciphertext.len() as u32) + c.ciphertext
}

/// Whether a ciphertext can be encoded.
pub open spec fn ciphertext_encodable(c: CiphertextView) -> bool {
    &&& g1_encoding(c.commitment)
    &&& g2_encoding(c.auth_tag)
    &&& c.ciphertext.len() <= u32::MAX
}

/// What a byte string decodes to as a ciphertext.
pub open spec fn decoded_ciphertext(b: Seq<u8>) -> Result<CiphertextView, Error> {
    if b.len() < 148 {
        Err(Error::InvalidByteLength(148, b.len() as usize))
    } else {
        let payload = u32_at(b, 144) as nat;
        if b.len() != 148 + payload {
            Err(Error::InvalidByteLength(reported(148 + payload), b.len() as usize))
        } else if !g1_encoding(b.subrange(0, 48)) || !g2_encoding(b.subrange(48, 144)) {
            Err(Error::DeserializationError)
        } else {
            Ok(
                CiphertextView {
                    commitment: b.subrange(0, 48),
                    auth_tag: b.subrange(48, 144),
                    ciphertext: b.subrange(148, b.len() as int),
                },
            )
        }
    }
}

/// Decoding the encoding of a ciphertext gives the ciphertext back.
pub proof fn lemma_ciphertext_round_trip(c: CiphertextView)
    requires
        ciphertext_encodable(c),
    ensures
        decoded_ciphertext(encoded_ciphertext(c)) == Ok::<CiphertextView, Error>(c),
{
    let b = encoded_ciphertext(c);
    lemma_u32_after(c.commitment + c.auth_tag, c.ciphertext.len() as u32, c.ciphertext);
    assert(b.subrange(0, 48) =~= c.commitment);
    assert(b.subrange(48, 144) =~= c.auth_tag);
    assert(b.subrange(148, b.len() as int) =~= c.ciphertext);
}

impl Ciphertext {
    /// The encoding of the ciphertext; `InvalidByteLength` where the
    /// payload is longer than a 32-bit length can say.
    pub fn to_bytes(&self) -> (out: Result<Vec<u8>, Error>)
        ensures
            match out {
                Ok(bytes) => ciphertext_encodable(self@) && bytes@ == encoded_ciphertext(self@),
                Err(e) => !ciphertext_encodable(self@) && e == Error::InvalidByteLength(
                    u32::MAX as usize,
                    self@.ciphertext.len() as usize,
                ),
            },
    {
        if self.ciphertext.len() > u32::MAX as usize {
            return Err(Error::InvalidByteLength(u32::MAX as usize, self.ciphertext.len()));
        }
        self.commitment.valid();
        self.auth_tag.valid();
        let mut out = self.commitment.to_bytes();
        let tag = self.auth_tag.to_bytes();
        append_bytes(&mut out, &tag);
        write_u32(&mut out, self.ciphertext.len() as u32);
        append_bytes(&mut out, &self.ciphertext);
        Ok(out)
    }

    /// Decodes a ciphertext.
    pub fn from_bytes(bytes: &[u8]) -> (out: Result<Ciphertext, Error>)
        ensures
            match out {
                Ok(c) => decoded_ciphertext(bytes@) == Ok::<CiphertextView, Error>(c@),
                Err(e) => decoded_ciphertext(bytes@) == Err::<CiphertextView, Error>(e),
            },
    {
        let n = bytes.len();
        if n < 148 {
            return Err(Error::InvalidByteLength(148, n));
        }
        let payload = read_u32(bytes, 144);
        let total: u64 = 148 + payload as u64;
        if n as u64 != total {
            return Err(Error::InvalidByteLength(report(total), n));
        }
        let commitment = match read_g1(bytes, 0) {
            Ok(p) => p,
            Err(e) => {
                return Err(e);
            },
        };
        let auth_tag = match read_g2(bytes, 48) {
            Ok(p) => p,
            Err(e) => {
                return Err(e);
            },
        };
        let ciphertext = slice_range(bytes, 148, n);
        Ok(Ciphertext { commitment, auth_tag, ciphertext })
    }
}

// Decryption shares

/// The encoding of a simple decryption share: the share, the checksum.
pub open spec fn encoded_simple_share(s: DecryptionShareSimpleView) -> Seq<u8> {
    s.decryption_share + s.checksum
}

/// Whether a simple decryption share can be encoded.
pub open spec fn simple_share_encodable(s: DecryptionShareSimpleView) -> bool {
    gt_encoding(s.decryption_share) && g1_encoding(s.checksum)
}

/// What a byte string decodes to as a simple decryption share.
pub open spec fn decoded_simple_share(b: Seq<u8>) -> Result<DecryptionShareSimpleView, Error> {
    if b.len() != 624 {
        Err(Error::InvalidByteLength(624, b.len() as usize))
    } else if !gt_encoding(b.subrange(0, 576)) || !g1_encoding(b.subrange(576, 624)) {
        Err(Error::DeserializationError)
    } else {
        Ok(
            DecryptionShareSimpleView {
                decryption_share: b.subrange(0, 576),
                checksum: b.subrange(576, 624),
            },
        )
    }
}

/// Decoding the encoding of a simple share gives the share back.
pub proof fn lemma_simple_share_round_trip(s: DecryptionShareSimpleView)
    requires
        simple_share_encodable(s),
    ensures
        decoded_simple_share(encoded_simple_share(s)) == Ok::<DecryptionShareSimpleView, Error>(s),
{
    let b = encoded_simple_share(s);
    assert(b.subrange(0, 576) =~= s.decryption_share);
    assert(b.subrange(576, 624) =~= s.checksum);
}

impl DecryptionShareSimple {
    /// The encoding of the share: 624 bytes.
    pub fn to_bytes(&self) -> (out: Vec<u8>)
        ensures
            out@ == encoded_simple_share(self@),
            simple_share_encodable(self@),
    {
        self.decryption_share.valid();
        self.validator_checksum.checksum.valid();
        let mut out = self.decryption_share.to_bytes();
        let checksum = self.validator_checksum.checksum.to_bytes();
        append_bytes(&mut out, &checksum);
        out
    }

    /// Decodes a simple decryption share.
    pub fn from_bytes(bytes: &[u8]) -> (out: Result<DecryptionShareSimple, Error>)
        ensures
            match out {
                Ok(s) => decoded_simple_share(bytes@) == Ok::<DecryptionShareSimpleView, Error>(s@),
                Err(e) => decoded_simple_share(bytes@) == Err::<DecryptionShareSimpleView, Error>(e),
            },
    {
        let n = bytes.len();
        if n != 624 {
            return Err(Error::InvalidByteLength(624, n));
        }
        let decryption_share = match read_gt(bytes, 0) {
            Ok(p) => p,
            Err(e) => {
                return Err(e);
            },
        };
        let checksum = match read_g1(bytes, 576) {
            Ok(p) => p,
            Err(e) => {
                return Err(e);
            },
        };
        Ok(
            DecryptionShareSimple {
                decryption_share,
                validator_checksum: ValidatorShareChecksum { checksum },
            },
        )
    }
}

/// The encoding of a precomputed decryption share: the index of the
/// decrypter, the share, the checksum.
pub open spec fn encoded_precomputed_share(s: DecryptionSharePrecomputedView) -> Seq<u8> {
    encoded_u32(s.decrypter_index) + s.decryption_share + s.checksum
}

/// Whether a precomputed decryption share can be encoded.
pub open spec fn precomputed_share_encodable(s: DecryptionSharePrecomputedView) -> bool {
    gt_encoding(s.decryption_share) && g1_encoding(s.checksum)
}

/// What a byte string decodes to as a precomputed decryption share.
pub open spec fn decoded_precomputed_share(b: Seq<u8>) -> Result<
    DecryptionSharePrecomputedView,
    Error,
> {
    if b.len() != 628 {
        Err(Error::InvalidByteLength(628, b.len() as usize))
    } else if !gt_encoding(b.subrange(4, 580)) || !g1_encoding(b.subrange(580, 628)) {
        Err(Error::DeserializationError)
    } else {
        Ok(
            DecryptionSharePrecomputedView {
                decrypter_index: u32_at(b, 0),
                decryption_share: b.subrange(4, 580),
                checksum: b.subrange(580, 628),
            },
        )
    }
}

/// Decoding the encoding of a precomputed share gives the share back.
pub proof fn lemma_precomputed_share_round_trip(s: DecryptionSharePrecomputedView)
    requires
        precomputed_share_encodable(s),
    ensures
        decoded_precomputed_share(encoded_precomputed_share(s)) == Ok::<
            DecryptionSharePrecomputedView,
            Error,
        >(s),
{
    let b = encoded_precomputed_share(s);
    lemma_u32_after(Seq::<u8>::empty(), s.decrypter_index, s.decryption_share + s.checksum);
    assert(b =~= Seq::<u8>::empty() + encoded_u32(s.decrypter_index) + (s.decryption_share
        + s.checksum));
    assert(b.subrange(4, 580) =~= s.decryption_share);
    assert(b.subrange(580, 628) =~= s.checksum);
}

impl DecryptionSharePrecomputed {
    /// The encoding of the share: 628 bytes.
    pub fn to_bytes(&self) -> (out: Vec<u8>)
        ensures
            out@ == encoded_precomputed_share(self@),
            precomputed_share_encodable(self@),
    {
        self.decryption_share.valid();
        self.validator_checksum.checksum.valid();
        let mut out: Vec<u8> = Vec::new();
        write_u32(&mut out, self.decrypter_index);
        let share = self.decryption_share.to_bytes();
        append_bytes(&mut out, &share);
        let checksum = self.validator_checksum.checksum.to_bytes();
        append_bytes(&mut out, &checksum);
        assert(out@ =~= encoded_precomputed_share(self@));
        out
    }

    /// Decodes a precomputed decryption share.
    pub fn from_bytes(bytes: &[u8]) -> (out: Result<DecryptionSharePrecomputed, Error>)
        ensures
            match out {
                Ok(s) => decoded_precomputed_share(bytes@) == Ok::<
                    DecryptionSharePrecomputedView,
                    Error,
                >(s@),
                Err(e) => decoded_precomputed_share(bytes@) == Err::<
                    DecryptionSharePrecomputedView,
                    Error,
                >(e),
            },
    {
        let n = bytes.len();
        if n != 628 {
            return Err(Error::InvalidByteLength(628, n));
        }
        let decrypter_index = read_u32(bytes, 0);
        let decryption_share = match read_gt(bytes, 4) {
            Ok(p) => p,
            Err(e) => {
                return Err(e);
            },
        };
        let checksum = match read_g1(bytes, 580) {
            Ok(p) => p,
            Err(e) => {
                return Err(e);
            },
        };
        Ok(
            DecryptionSharePrecomputed {
                decrypter_index,
                decryption_share,
                validator_checksum: ValidatorShareChecksum { checksum },
            },
        )
    }
}

// Share updates and handovers

/// What a share update is in contracts: the update and its commitment.
pub struct ShareUpdateView {
    pub update: Seq<u8>,
    pub commitment: Seq<u8>,
}

/// What a handover transcript is in contracts.
pub struct HandoverView {
    pub share_index: u32,
    pub double_blinded_share: Seq<u8>,
    pub old_blinded_share: Seq<u8>,
    pub new_blinding_commitment: Seq<u8>,
    pub challenge_response: Seq<u8>,
}

impl View for ShareUpdate {
    type V = ShareUpdateView;

    open spec fn view(&self) -> ShareUpdateView {
        ShareUpdateView { update: self.update@, commitment: self.commitment@ }
    }
}

impl View for HandoverTranscript {
    type V = HandoverView;

    open spec fn view(&self) -> HandoverView {
        HandoverView {
            share_index: self.share_index,
            double_blinded_share: self.double_blinded_share@,
            old_blinded_share: self.old_blinded_share@,
            new_blinding_commitment: self.new_blinding_commitment@,
            challenge_response: self.challenge_response@,
        }
    }
}

/// The encoding of a share update: the update, the commitment.
pub open spec fn encoded_share_update(u: ShareUpdateView) -> Seq<u8> {
    u.update + u.commitment
}

/// Whether a share update can be encoded.
pub open spec fn share_update_encodable(u: ShareUpdateView) -> bool {
    g2_encoding(u.update) && g1_encoding(u.commitment)
}

/// What a byte string decodes to as a share update.
pub open spec fn decoded_share_update(b: Seq<u8>) -> Result<ShareUpdateView, Error> {
    if b.len() != 144 {
        Err(Error::InvalidByteLength(144, b.len() as usize))
    } else if !g2_encoding(b.subrange(0, 96)) || !g1_encoding(b.subrange(96, 144)) {
        Err(Error::DeserializationError)
    } else {
        Ok(ShareUpdateView { update: b.subrange(0, 96), commitment: b.subrange(96, 144) })
    }
}

/// Decoding the encoding of a share update gives the update back.
pub proof fn lemma_share_update_round_trip(u: ShareUpdateView)
    requires
        share_update_encodable(u),
    ensures
        decoded_share_update(encoded_share_update(u)) == Ok::<ShareUpdateView, Error>(u),
{
    let b = encoded_share_update(u);
    assert(b.subrange(0, 96) =~= u.update);
    assert(b.subrange(96, 144) =~= u.commitment);
}

impl ShareUpdate {
    /// The encoding of the update: 144 bytes.
    pub fn to_bytes(&self) -> (out: Vec<u8>)
        ensures
            out@ == encoded_share_update(self@),
            share_update_encodable(self@),
    {
        self.update.valid();
        self.commitment.valid();
        let mut out = self.update.to_bytes();
        let commitment = self.commitment.to_bytes();
        append_bytes(&mut out, &commitment);
        out
    }

    /// Decodes a share update.
    pub fn from_bytes(bytes: &[u8]) -> (out: Result<ShareUpdate, Error>)
        ensures
            match out {
                Ok(u) => decoded_share_update(bytes@) == Ok::<ShareUpdateView, Error>(u@),
                Err(e) => decoded_share_update(bytes@) == Err::<ShareUpdateView, Error>(e),
            },
    {
        let n = bytes.len();
        if n != 144 {
            return Err(Error::InvalidByteLength(144, n));
        }
        let update = match read_g2(bytes, 0) {
            Ok(p) => p,
            Err(e) => {
                return Err(e);
            },
        };
        let commitment = match read_g1(bytes, 96) {
            Ok(p) => p,
            Err(e) => {
                return Err(e);
            },
        };
        Ok(ShareUpdate { update, commitment })
    }
}

/// The encoding of a handover transcript: the slot, the double-blinded
/// share, the old share, the incoming key, the response.
pub open spec fn encoded_handover(h: HandoverView) -> Seq<u8> {
    encoded_u32(h.share_index) + h.double_blinded_share + h.old_blinded_share
        + h.new_blinding_commitment + h.challenge_response
}

/// Whether a handover transcript can be encoded.
pub open spec fn handover_encodable(h: HandoverView) -> bool {
    &&& g2_encoding(h.double_blinded_share)
    &&& g2_encoding(h.old_blinded_share)
    &&& g2_encoding(h.new_blinding_commitment)
    &&& g2_encoding(h.challenge_response)
}

/// What a byte string decodes to as a handover transcript.
pub open spec fn decoded_handover(b: Seq<u8>) -> Result<HandoverView, Error> {
    if b.len() != 388 {
        Err(Error::InvalidByteLength(388, b.len() as usize))
    } else {
        let h = HandoverView {
            share_index: u32_at(b, 0),
            double_blinded_share: b.subrange(4, 100),
            old_blinded_share: b.subrange(100, 196),
            new_blinding_commitment: b.subrange(196, 292),
            challenge_response: b.subrange(292, 388),
        };
        if handover_encodable(h) {
            Ok(h)
        } else {
            Err(Error::DeserializationError)
        }
    }
}

/// Decoding the encoding of a handover transcript gives it back.
pub proof fn lemma_handover_round_trip(h: HandoverView)
    requires
        handover_encodable(h),
    ensures
        decoded_handover(encoded_handover(h)) == Ok::<HandoverView, Error>(h),
{
    let b = encoded_handover(h);
    let rest = h.double_blinded_share + h.old_blinded_share + h.new_blinding_commitment
        + h.challenge_response;
    lemma_u32_after(Seq::<u8>::empty(), h.share_index, rest);
    assert(b =~= Seq::<u8>::empty() + encoded_u32(h.share_index) + rest);
    assert(b.subrange(4, 100) =~= h.double_blinded_share);
    assert(b.subrange(100, 196) =~= h.old_blinded_share);
    assert(b.subrange(196, 292) =~= h.new_blinding_commitment);
    assert(b.subrange(292, 388) =~= h.challenge_response);
}

impl HandoverTranscript {
    /// The encoding of the transcript: 388 bytes.
    pub fn to_bytes(&self) -> (out: Vec<u8>)
        ensures
            out@ == encoded_handover(self@),
            handover_encodable(self@),
    {
        self.double_blinded_share.valid();
        self.old_blinded_share.valid();
        self.new_blinding_commitment.valid();
        self.challenge_response.valid();
        let mut out: Vec<u8> = Vec::new();
        write_u32(&mut out, self.share_index);
        let part = self.double_blinded_share.to_bytes();
        append_bytes(&mut out, &part);
        let part = self.old_blinded_share.to_bytes();
        append_bytes(&mut out, &part);
        let part = self.new_blinding_commitment.to_bytes();
        append_bytes(&mut out, &part);
        let part = self.challenge_response.to_bytes();
        append_bytes(&mut out, &part);
        assert(out@ =~= encoded_handover(self@));
        out
    }

    /// Decodes a handover transcript.
    pub fn from_bytes(bytes: &[u8]) -> (out: Result<HandoverTranscript, Error>)
        ensures
            match out {
                Ok(h) => decoded_handover(bytes@) == Ok::<HandoverView, Error>(h@),
                Err(e) => decoded_handover(bytes@) == Err::<HandoverView, Error>(e),
            },
    {
        let n = bytes.len();
        if n != 388 {
            return Err(Error::InvalidByteLength(388, n));
        }
        let share_index = read_u32(bytes, 0);
        let double_blinded_share = match read_g2(bytes, 4) {
            Ok(p) => p,
            Err(e) => {
                return Err(e);
            },
        };
        let old_blinded_share = match read_g2(bytes, 100) {
            Ok(p) => p,
            Err(e) => {
                return Err(e);
            },
        };
        let new_blinding_commitment = match read_g2(bytes, 196) {
            Ok(p) => p,
            Err(e) => {
                return Err(e);
            },
        };
        let challenge_response = match read_g2(bytes, 292) {
            Ok(p) => p,
            Err(e) => {
                return Err(e);
            },
        };
        Ok(
            HandoverTranscript {
                share_index,
                double_blinded_share,
                old_blinded_share,
                new_blinding_commitment,
                challenge_response,
            },
        )
    }
}

// Update transcripts

/// What an update transcript is in contracts: the encodings of its
/// commitments, the share indices of its targets in ascending order, and
/// the update of every target.
pub struct UpdateTranscriptView {
    pub coeffs: Seq<Seq<u8>>,
    pub indices: Seq<u32>,
    pub updates: Seq<ShareUpdateView>,
}

/// The views of a sequence of share updates.
pub open spec fn update_views(updates: Seq<ShareUpdate>) -> Seq<ShareUpdateView> {
    updates.map_values(|u: ShareUpdate| u@)
}

impl View for UpdateTranscript {
    type V = UpdateTranscriptView;

    open spec fn view(&self) -> UpdateTranscriptView {
        UpdateTranscriptView {
            coeffs: g1_views(self.coeffs@),
            indices: self.updates.spec_keys(),
            updates: update_views(self.updates.spec_values()),
        }
    }
}

/// The encoding of one target's update: the share index, the update, the
/// commitment.
pub open spec fn encoded_entry(index: u32, u: ShareUpdateView) -> Seq<u8> {
    encoded_u32(index) + u.update + u.commitment
}

/// The encodings of the updates of all targets.
pub open spec fn encoded_entries(v: UpdateTranscriptView) -> Seq<Seq<u8>> {
    Seq::new(v.indices.len(), |i: int| encoded_entry(v.indices[i], v.updates[i]))
}

/// The encoding of an update transcript: the number of commitments, the
/// commitments, the number of targets, and the update of every target in
/// the order of the share indices.
pub open spec fn encoded_update_transcript(v: UpdateTranscriptView) -> Seq<u8> {
    encoded_u32(v.coeffs.len() as u32) + joined(v.coeffs) + encoded_u32(v.indices.len() as u32)
        + joined(encoded_entries(v))
}

/// Whether every update can be encoded.
pub open spec fn all_updates_encodable(updates: Seq<ShareUpdateView>) -> bool {
    forall|i: int| 0 <= i < updates.len() ==> share_update_encodable(#[trigger] updates[i])
}

/// Whether the parts of an update transcript are well formed: the
/// commitments are points, the updates are points, and the share indices
/// ascend.
pub open spec fn update_transcript_well_formed(v: UpdateTranscriptView) -> bool {
    &&& v.indices.len() == v.updates.len()
    &&& all_g1(v.coeffs)
    &&& all_updates_encodable(v.updates)
    &&& strictly_increasing(v.indices)
}

/// Whether an update transcript can be encoded.
pub open spec fn update_transcript_encodable(v: UpdateTranscriptView) -> bool {
    &&& v.coeffs.len() <= u32::MAX
    &&& v.indices.len() <= u32::MAX
    &&& update_transcript_well_formed(v)
}

/// The update transcript that is laid out in `b` with `coeffs` commitments
/// and `targets` targets.
pub open spec fn laid_out_update_transcript(b: Seq<u8>, coeffs: nat, targets: nat) -> UpdateTranscriptView {
    let base = 8 + 48 * coeffs;
    UpdateTranscriptView {
        coeffs: chunks(b, 4, 48, coeffs),
        indices: Seq::new(targets, |i: int| u32_at(b, base + 148 * i)),
        updates: Seq::new(
            targets,
            |i: int|
                ShareUpdateView {
                    update: b.subrange(base + 148 * i + 4, base + 148 * i + 100),
                    commitment: b.subrange(base + 148 * i + 100, base + 148 * i + 148),
                },
        ),
    }
}

/// What a byte string decodes to as an update transcript.
pub open spec fn decoded_update_transcript(b: Seq<u8>) -> Result<UpdateTranscriptView, Error> {
    if b.len() < 4 {
        Err(Error::InvalidByteLength(4, b.len() as usize))
    } else {
        let coeffs = u32_at(b, 0) as nat;
        if b.len() < 8 + 48 * coeffs {
            Err(Error::InvalidByteLength(reported(8 + 48 * coeffs), b.len() as usize))
        } else {
            let targets = u32_at(b, (4 + 48 * coeffs) as int) as nat;
            let total = 8 + 48 * coeffs + 148 * targets;
            if b.len() != total {
                Err(Error::InvalidByteLength(reported(total), b.len() as usize))
            } else {
                let v = laid_out_update_transcript(b, coeffs, targets);
                if update_transcript_well_formed(v) {
                    Ok(v)
                } else {
                    Err(Error::DeserializationError)
                }
            }
        }
    }
}

/// Decoding the encoding of an update transcript gives it back.
pub proof fn lemma_update_transcript_round_trip(v: UpdateTranscriptView)
    requires
        update_transcript_encodable(v),
    ensures
        decoded_update_transcript(encoded_update_transcript(v)) == Ok::<UpdateTranscriptView, Error>(
            v,
        ),
{
    let b = encoded_update_transcript(v);
    let c = v.coeffs.len();
    let n = v.indices.len();
    let entries = encoded_entries(v);
    lemma_auto_spec_u32_to_from_le_bytes();
    assert(uniform(v.coeffs, 48));
    assert(uniform(entries, 148)) by {
        assert forall|i: int| 0 <= i < entries.len() implies (#[trigger] entries[i]).len()
            == 148 by {
            assert(share_update_encodable(v.updates[i]));
        }
    }
    lemma_joined_len(v.coeffs, 48);
    lemma_joined_len(entries, 148);
    let front0 = Seq::<u8>::empty();
    let rest0 = joined(v.coeffs) + encoded_u32(n as u32) + joined(entries);
    assert(b =~= front0 + encoded_u32(c as u32) + rest0);
    lemma_u32_after(front0, c as u32, rest0);
    let front1 = encoded_u32(c as u32);
    let rest1 = encoded_u32(n as u32) + joined(entries);
    assert(b =~= front1 + joined(v.coeffs) + rest1);
    lemma_chunks_of_joined(front1, v.coeffs, rest1, 48);
    let front2 = front1 + joined(v.coeffs);
    assert(b =~= front2 + encoded_u32(n as u32) + joined(entries));
    lemma_u32_after(front2, n as u32, joined(entries));
    assert(u32_at(b, (4 + 48 * c) as int) == n);
    let front3 = front2 + encoded_u32(n as u32);
    assert(b =~= front3 + joined(entries) + Seq::<u8>::empty());
    lemma_chunks_of_joined(front3, entries, Seq::<u8>::empty(), 148);
    let base = 8 + 48 * c;
    assert(front3.len() == base);
    assert(b.len() == base + 148 * n);
    let d = laid_out_update_transcript(b, c, n);
    assert forall|i: int| 0 <= i < n implies d.indices[i] == v.indices[i] && d.updates[i]
        == v.updates[i] by {
        let part = chunk(b, base as int, 148, i);
        assert(part == chunks(b, base as int, 148, n)[i]);
        assert(part == entries[i]);
        assert(entries[i] == encoded_entry(v.indices[i], v.updates[i]));
        assert(share_update_encodable(v.updates[i]));
        let at = base + i * 148;
        assert(part == b.subrange(at, at + 148));
        assert(b.subrange(at, at + 4) =~= part.subrange(0, 4));
        assert(part.subrange(0, 4) =~= encoded_u32(v.indices[i]));
        assert(b.subrange(at + 4, at + 100) =~= part.subrange(4, 100));
        assert(part.subrange(4, 100) =~= v.updates[i].update);
        assert(b.subrange(at + 100, at + 148) =~= part.subrange(100, 148));
        assert(part.subrange(100, 148) =~= v.updates[i].commitment);
    }
    assert(d.indices =~= v.indices);
    assert(d.updates =~= v.updates);
    assert(d == v);
}

impl UpdateTranscript {
    /// The encoding of the transcript; `InvalidByteLength` where it holds
    /// more commitments or targets than a 32-bit count can say.
    pub fn to_bytes(&self) -> (out: Result<Vec<u8>, Error>)
        ensures
            match out {
                Ok(bytes) => update_transcript_encodable(self@) && bytes@
                    == encoded_update_transcript(self@),
                Err(e) => !update_transcript_encodable(self@) && e == Error::InvalidByteLength(
                    u32::MAX as usize,
                    if self@.coeffs.len() > u32::MAX {
                        self@.coeffs.len() as usize
                    } else {
                        self@.indices.len() as usize
                    },
                ),
            },
    {
        let n = self.updates.len();
        if self.coeffs.len() > u32::MAX as usize {
            return Err(Error::InvalidByteLength(u32::MAX as usize, self.coeffs.len()));
        }
        if n > u32::MAX as usize {
            return Err(Error::InvalidByteLength(u32::MAX as usize, n));
        }
        let ghost v = self@;
        let ghost entries = encoded_entries(v);
        let mut out: Vec<u8> = Vec::new();
        write_u32(&mut out, self.coeffs.len() as u32);
        write_g1_points(&mut out, &self.coeffs);
        write_u32(&mut out, n as u32);
        let ghost head = out@;
        assert(joined(entries.subrange(0, 0)) =~= Seq::<u8>::empty());
        let mut i: usize = 0;
        while i < n
            invariant
                i <= n == self.updates.spec_keys().len(),
                self.updates.ordered(),
                v == self@,
                entries == encoded_entries(v),
                out@ == head + joined(entries.subrange(0, i as int)),
                forall|k: int| 0 <= k < i ==> share_update_encodable(#[trigger] v.updates[k]),
            decreases n - i,
        {
            let index = self.updates.key_at(i);
            let update = self.updates.value_at(i);
            assert(v.updates[i as int] == update@);
            write_u32(&mut out, index);
            let part = update.to_bytes();
            append_bytes(&mut out, &part);
            assert(entries.subrange(0, i + 1).drop_last() =~= entries.subrange(0, i as int));
            assert(entries.subrange(0, i + 1).last() == entries[i as int]);
            assert(out@ =~= head + joined(entries.subrange(0, i + 1)));
            i += 1;
        }
        assert(entries.subrange(0, n as int) =~= entries);
        assert(out@ =~= encoded_update_transcript(v));
        Ok(out)
    }

    /// Decodes an update transcript.
    pub fn from_bytes(bytes: &[u8]) -> (out: Result<UpdateTranscript, Error>)
        ensures
            match out {
                Ok(t) => decoded_update_transcript(bytes@) == Ok::<UpdateTranscriptView, Error>(t@),
                Err(e) => decoded_update_transcript(bytes@) == Err::<UpdateTranscriptView, Error>(e),
            },
    {
        let len = bytes.len();
        if len < 4 {
            return Err(Error::InvalidByteLength(4, len));
        }
        let coeffs = read_u32(bytes, 0);
        let base: u64 = 8 + 48 * (coeffs as u64);
        if (len as u64) < base {
            return Err(Error::InvalidByteLength(report(base), len));
        }
        let targets = read_u32(bytes, 4 + 48 * (coeffs as usize));
        let total: u64 = base + 148 * (targets as u64);
        if len as u64 != total {
            return Err(Error::InvalidByteLength(report(total), len));
        }
        let ghost v = laid_out_update_transcript(bytes@, coeffs as nat, targets as nat);
        let coeff_points = match read_g1_points(bytes, 4, coeffs as usize) {
            Ok(points) => points,
            Err(e) => {
                return Err(e);
            },
        };
        let base = base as usize;
        let mut updates: IndexMap<ShareUpdate> = IndexMap::new();
        let mut i: usize = 0;
        while i < targets as usize
            invariant
                i <= targets,
                base == 8 + 48 * coeffs,
                coeffs == u32_at(bytes@, 0),
                targets == u32_at(bytes@, (4 + 48 * coeffs) as int),
                bytes@.len() == base + 148 * targets,
                bytes@.len() <= usize::MAX,
                v == laid_out_update_transcript(bytes@, coeffs as nat, targets as nat),
                updates.ordered(),
                updates.spec_keys() == v.indices.subrange(0, i as int),
                updates.spec_values().len() == i,
                forall|k: int| 0 <= k < i ==> (#[trigger] updates.spec_values()[k])@ == v.updates[k],
                forall|k: int| 0 <= k < i ==> share_update_encodable(#[trigger] v.updates[k]),
            decreases targets - i,
        {
            let at = base + 148 * i;
            let index = read_u32(bytes, at);
            assert(index == v.indices[i as int]);
            let update = match read_g2(bytes, at + 4) {
                Ok(p) => p,
                Err(e) => {
                    assert(!share_update_encodable(v.updates[i as int]));
                    assert(!all_updates_encodable(v.updates));
                    return Err(e);
                },
            };
            let commitment = match read_g1(bytes, at + 100) {
                Ok(p) => p,
                Err(e) => {
                    assert(!share_update_encodable(v.updates[i as int]));
                    assert(!all_updates_encodable(v.updates));
                    return Err(e);
                },
            };
            if i > 0 {
                let previous = updates.key_at(i - 1);
                assert(previous == v.indices[i - 1]);
                if index <= previous {
                    assert(!strictly_increasing(v.indices));
                    return Err(Error::DeserializationError);
                }
            }
            let ghost before = updates;
            assert forall|k: int| 0 <= k < before.spec_keys().len() implies before.spec_keys()[k]
                < index by {
                if k < i - 1 {
                    assert(before.spec_keys()[k] < before.spec_keys()[i - 1]);
                }
            }
            updates = updates.push_back(index, ShareUpdate { update, commitment });
            assert(updates.spec_keys() =~= v.indices.subrange(0, i + 1));
            assert forall|k: int| 0 <= k < i + 1 implies (#[trigger] updates.spec_values()[k])@
                == v.updates[k] by {
                if k < i {
                    assert(updates.spec_values()[k] == before.spec_values()[k]);
                }
            }
            assert(share_update_encodable(v.updates[i as int]));
            i += 1;
        }
        assert(v.indices.subrange(0, targets as int) =~= v.indices);
        let out = UpdateTranscript { coeffs: coeff_points, updates };
        assert(out@.updates =~= v.updates);
        assert(out@ == v);
        Ok(out)
    }
}

} // verus!
