//! The interface for applications: the session, the aggregate, the
//! ciphertext and the shares, each wrapped so that a caller needs no other
//! module.

use vstd::prelude::*;
use vstd::string::StringExecFns;
use crate::ciphertext::{
    decryption_of,
    encrypts_with,
    header_of,
    header_verifies,
    outcome_view,
    CiphertextView,
    SecretBox,
};
use crate::combine::{share_combine_simple, weighted_product};
use crate::decryption::{precomputed_share_of, simple_share_of, DecryptionSharePrecomputed};
use crate::dkg::{session_accepts, session_rejects, DkgParams, PubliclyVerifiableDkg, valid_parameters};
use crate::domain::{domain_point, domain_points, domain_size, domain_size_for};
use crate::error::Error;
use crate::index_map::{position_of, IndexMap};
use crate::key_share::unblinded;
use crate::messages::{
    clamped,
    index_sequence,
    ingestion_gives,
    message_views,
    transcripts_of,
    ValidatorMessage,
};
use crate::poly::{lagrange_basis, lagrange_coefficient, prepare_combine_simple};
use crate::pvss::{
    aggregate_of,
    aggregation_check_gives,
    deals_secret,
    do_verify_aggregation,
    keys_of,
    proof_of_knowledge_holds,
    same_shape,
    transcript_views,
    PubliclyVerifiableSS,
    TranscriptView,
};
use crate::refresh::{
    deals_updates_with_root,
    refresh_accepts,
    refresh_error,
    refreshed,
    UpdateTranscript,
};
use crate::scalar::{scalar_encoding, scalar_views, Scalar};
use crate::symmetric::TAG_SIZE;
use crate::validator::{
    assert_no_share_duplicates,
    distinct_share_indices,
    first_repeat,
    public_key_of,
    validator_views,
    Keypair,
    PublicKey,
    Validator,
    ValidatorView,
};
use rand::rngs::StdRng;

verus! {

/// A transcript of one dealer.
pub type Transcript = PubliclyVerifiableSS;

/// The updates of one producer in a refresh.
pub type RefreshTranscript = UpdateTranscript;

/// What has a canonical encoding: field elements and group elements.
pub trait CanonicalEncoding: Sized {
    /// The encoding of the value.
    spec fn canonical_bytes(&self) -> Seq<u8>;

    /// Whether a byte string is the encoding of a value.
    spec fn is_canonical(bytes: Seq<u8>) -> bool;

    /// The length of every encoding.
    spec fn encoded_size() -> usize;

    /// The encoding of the value.
    fn encode(&self) -> (out: Vec<u8>)
        ensures
            out@ == self.canonical_bytes(),
            Self::is_canonical(out@),
    ;

    /// The value that a byte string encodes: `InvalidByteLength` unless the
    /// string has the length of an encoding, `DeserializationError` unless
    /// it is one.
    fn decode(bytes: &[u8]) -> (out: Result<Self, Error>)
        ensures
            match out {
                Ok(value) => Self::is_canonical(bytes@) && value.canonical_bytes() == bytes@,
                Err(e) => if bytes@.len() != Self::encoded_size() {
                    e == Error::InvalidByteLength(Self::encoded_size(), bytes@.len() as usize)
                } else {
                    e == Error::DeserializationError && !Self::is_canonical(bytes@)
                },
            },
    ;
}

impl CanonicalEncoding for Scalar {
    open spec fn canonical_bytes(&self) -> Seq<u8> {
        self.encoding()
    }

    open spec fn is_canonical(bytes: Seq<u8>) -> bool {
        scalar_encoding(bytes)
    }

    open spec fn encoded_size() -> usize {
        32
    }

    fn encode(&self) -> (out: Vec<u8>) {
        self.canonical();
        self.to_bytes()
    }

    fn decode(bytes: &[u8]) -> (out: Result<Self, Error>) {
        Scalar::from_bytes(bytes)
    }
}

impl CanonicalEncoding for crate::curve::G1Point {
    open spec fn canonical_bytes(&self) -> Seq<u8> {
        self@
    }

    open spec fn is_canonical(bytes: Seq<u8>) -> bool {
        crate::curve::g1_encoding(bytes)
    }

    open spec fn encoded_size() -> usize {
        48
    }

    fn encode(&self) -> (out: Vec<u8>) {
        self.valid();
        self.to_bytes()
    }

    fn decode(bytes: &[u8]) -> (out: Result<Self, Error>) {
        crate::curve::G1Point::from_bytes(bytes)
    }
}

impl CanonicalEncoding for crate::curve::G2Point {
    open spec fn canonical_bytes(&self) -> Seq<u8> {
        self@
    }

    open spec fn is_canonical(bytes: Seq<u8>) -> bool {
        crate::curve::g2_encoding(bytes)
    }

    open spec fn encoded_size() -> usize {
        96
    }

    fn encode(&self) -> (out: Vec<u8>) {
        self.valid();
        self.to_bytes()
    }

    fn decode(bytes: &[u8]) -> (out: Result<Self, Error>) {
        crate::curve::G2Point::from_bytes(bytes)
    }
}

impl CanonicalEncoding for crate::curve::GtElement {
    open spec fn canonical_bytes(&self) -> Seq<u8> {
        self@
    }

    open spec fn is_canonical(bytes: Seq<u8>) -> bool {
        crate::curve::gt_encoding(bytes)
    }

    open spec fn encoded_size() -> usize {
        576
    }

    fn encode(&self) -> (out: Vec<u8>) {
        self.valid();
        self.to_bytes()
    }

    fn decode(bytes: &[u8]) -> (out: Result<Self, Error>) {
        crate::curve::GtElement::from_bytes(bytes)
    }
}

/// The canonical encoding of a field or group element.
pub fn to_bytes<T: CanonicalEncoding>(item: &T) -> (out: Result<Vec<u8>, Error>)
    ensures
        out matches Ok(bytes) && bytes@ == item.canonical_bytes() && T::is_canonical(bytes@),
{
    Ok(item.encode())
}

/// The field or group element of a canonical encoding.
pub fn from_bytes<T: CanonicalEncoding>(bytes: &[u8]) -> (out: Result<T, Error>)
    ensures
        match out {
            Ok(value) => T::is_canonical(bytes@) && value.canonical_bytes() == bytes@,
            Err(e) => if bytes@.len() != T::encoded_size() {
                e == Error::InvalidByteLength(T::encoded_size(), bytes@.len() as usize)
            } else {
                e == Error::DeserializationError && !T::is_canonical(bytes@)
            },
        },
{
    T::decode(bytes)
}

/// The variant by which decryption shares are made and combined.
#[derive(PartialEq, Eq, Debug, Copy, Clone, PartialOrd, Structural)]
pub enum FerveoVariant {
    /// Any threshold-many of the shares decrypt; the client weights them.
    Simple,
    /// The shares of one selected set decrypt; the validators weight them.
    Precomputed,
}

impl FerveoVariant {
    /// The tag of the variant.
    pub fn as_str(&self) -> (out: &'static str)
        ensures
            out@ == match self {
                FerveoVariant::Simple => "FerveoVariant::Simple"@,
                FerveoVariant::Precomputed => "FerveoVariant::Precomputed"@,
            },
    {
        match self {
            FerveoVariant::Simple => "FerveoVariant::Simple",
            FerveoVariant::Precomputed => "FerveoVariant::Precomputed",
        }
    }

    /// The variant of a tag; `InvalidVariant` with the tag for any other
    /// string.
    pub fn from_string(s: &str) -> (out: Result<FerveoVariant, Error>)
        ensures
            match out {
                Ok(v) => s@ == match v {
                    FerveoVariant::Simple => "FerveoVariant::Simple"@,
                    FerveoVariant::Precomputed => "FerveoVariant::Precomputed"@,
                },
                Err(e) => {
                    &&& s@ != "FerveoVariant::Simple"@
                    &&& s@ != "FerveoVariant::Precomputed"@
                    &&& e matches Error::InvalidVariant(t) && t@ == s@
                },
            },
    {
        let owned = String::from_str(s);
        if owned == String::from_str("FerveoVariant::Simple") {
            Ok(FerveoVariant::Simple)
        } else if owned == String::from_str("FerveoVariant::Precomputed") {
            Ok(FerveoVariant::Precomputed)
        } else {
            Err(Error::InvalidVariant(owned))
        }
    }

    /// The tag of the variant as an owned string.
    pub fn to_string(&self) -> (out: String)
        ensures
            out@ == match self {
                FerveoVariant::Simple => "FerveoVariant::Simple"@,
                FerveoVariant::Precomputed => "FerveoVariant::Precomputed"@,
            },
    {
        String::from_str(self.as_str())
    }
}

/// The public key of the group.
#[derive(Debug, PartialEq, Eq)]
pub struct DkgPublicKey(pub crate::key_share::DkgPublicKey);

impl View for DkgPublicKey {
    type V = Seq<u8>;

    open spec fn view(&self) -> Seq<u8> {
        self.0@
    }
}

impl Clone for DkgPublicKey {
    fn clone(&self) -> (out: Self)
        ensures
            out@ == self@,
    {
        DkgPublicKey(self.0.clone())
    }
}

impl DkgPublicKey {
    /// The encoding of the key: 48 bytes.
    pub fn to_bytes(&self) -> (out: Result<Vec<u8>, Error>)
        ensures
            out matches Ok(bytes) && bytes@ == self@ && bytes@.len() == 48,
    {
        Ok(self.0.0.to_bytes())
    }

    /// Decodes a key: `InvalidByteLength` unless there are 48 bytes,
    /// `DeserializationError` unless they encode a point of the group.
    pub fn from_bytes(bytes: &[u8]) -> (out: Result<DkgPublicKey, Error>)
        ensures
            match out {
                Ok(key) => crate::curve::g1_encoding(bytes@) && key@ == bytes@,
                Err(e) => if bytes@.len() != 48 {
                    e == Error::InvalidByteLength(48, bytes@.len() as usize)
                } else {
                    e == Error::DeserializationError && !crate::curve::g1_encoding(bytes@)
                },
            },
    {
        match crate::curve::G1Point::from_bytes(bytes) {
            Ok(point) => Ok(DkgPublicKey(crate::key_share::DkgPublicKey(point))),
            Err(e) => Err(e),
        }
    }

    /// The length of an encoded key.
    pub fn serialized_size() -> (out: usize)
        ensures
            out == 48,
    {
        48
    }
}

/// An element of the scalar field: a domain point, as applications see it.
#[derive(Debug, PartialEq, Eq)]
pub struct FieldPoint(pub Scalar);

impl View for FieldPoint {
    type V = nat;

    open spec fn view(&self) -> nat {
        self.0@
    }
}

impl Clone for FieldPoint {
    fn clone(&self) -> (out: Self)
        ensures
            out@ == self@,
            out.0.encoding() == self.0.encoding(),
    {
        FieldPoint(self.0.clone())
    }
}

impl FieldPoint {
    /// The canonical encoding: 32 bytes, little-endian.
    pub fn to_bytes(&self) -> (out: Result<Vec<u8>, Error>)
        ensures
            out matches Ok(bytes) && bytes@ == self.0.encoding() && bytes@.len() == 32,
    {
        Ok(self.0.to_bytes())
    }

    /// Decodes a field element: `InvalidByteLength` unless there are 32
    /// bytes, `DeserializationError` unless they spell a value below the
    /// modulus.
    pub fn from_bytes(bytes: &[u8]) -> (out: Result<FieldPoint, Error>)
        ensures
            match out {
                Ok(p) => scalar_encoding(bytes@) && p.0.encoding() == bytes@,
                Err(e) => if bytes@.len() != 32 {
                    e == Error::InvalidByteLength(32, bytes@.len() as usize)
                } else {
                    e == Error::DeserializationError && !scalar_encoding(bytes@)
                },
            },
    {
        match Scalar::from_bytes(bytes) {
            Ok(s) => Ok(FieldPoint(s)),
            Err(e) => Err(e),
        }
    }
}

/// A message encrypted to the group public key.
#[derive(Debug, PartialEq, Eq)]
pub struct Ciphertext(pub crate::ciphertext::Ciphertext);

impl Clone for Ciphertext {
    fn clone(&self) -> (out: Self)
        ensures
            out.0@ == self.0@,
    {
        Ciphertext(self.0.clone())
    }
}

/// The part of a ciphertext that a validator needs to make a share.
#[derive(Debug, PartialEq, Eq)]
pub struct CiphertextHeader(pub crate::ciphertext::CiphertextHeader);

impl Clone for CiphertextHeader {
    fn clone(&self) -> (out: Self)
        ensures
            out.0@ == self.0@,
    {
        CiphertextHeader(self.0.clone())
    }
}

impl Ciphertext {
    /// The header: commitment, authentication tag, and payload digest.
    pub fn header(&self) -> (out: Result<CiphertextHeader, Error>)
        ensures
            out matches Ok(h) && h.0@ == header_of(self.0@),
    {
        match self.0.header() {
            Ok(h) => Ok(CiphertextHeader(h)),
            Err(e) => Err(e),
        }
    }

    /// The sealed payload.
    pub fn payload(&self) -> (out: Vec<u8>)
        ensures
            out@ == self.0@.ciphertext,
    {
        self.0.payload()
    }
}

/// The secret that encryption and decryption share.
#[derive(Debug, PartialEq, Eq)]
pub struct SharedSecret(pub crate::combine::SharedSecret);

impl Clone for SharedSecret {
    fn clone(&self) -> (out: Self)
        ensures
            out.0@ == self.0@,
    {
        SharedSecret(self.0.clone())
    }
}

/// The outcome of an encryption in contracts.
pub open spec fn encryption_outcome(out: Result<Ciphertext, Error>) -> Result<CiphertextView, Error> {
    match out {
        Ok(ct) => Ok(ct.0@),
        Err(e) => Err(e),
    }
}

/// Encrypts a message to the group public key with an exponent drawn from
/// `rng`. The message is wiped.
pub fn encrypt(message: SecretBox, aad: &[u8], public_key: &DkgPublicKey, rng: &mut StdRng) -> (out:
    Result<Ciphertext, Error>)
    requires
        message@.len() + TAG_SIZE <= isize::MAX,
    ensures
        exists|r: nat| #[trigger]
            encrypts_with(encryption_outcome(out), message@, aad@, public_key@, r),
{
    let inner = crate::ciphertext::encrypt(message, aad, &public_key.0, rng);
    proof {
        let r = choose|r: nat| #[trigger]
            encrypts_with(outcome_view(inner), message@, aad@, public_key@, r);
        assert(encrypts_with(outcome_view(inner), message@, aad@, public_key@, r));
    }
    let ghost r = choose|r: nat| #[trigger]
        encrypts_with(outcome_view(inner), message@, aad@, public_key@, r);
    let out = match inner {
        Ok(ct) => Ok(Ciphertext(ct)),
        Err(e) => Err(e),
    };
    assert(encrypts_with(encryption_outcome(out), message@, aad@, public_key@, r));
    out
}

/// Decrypts a ciphertext with the shared secret: the header is checked
/// first, then the payload is opened under the key derived from the secret.
pub fn decrypt_with_shared_secret(ciphertext: &Ciphertext, aad: &[u8], shared_secret: &SharedSecret) -> (out:
    Result<Vec<u8>, Error>)
    ensures
        match out {
            Ok(msg) => decryption_of(ciphertext.0@, aad@, shared_secret.0@) == Ok::<Seq<u8>, Error>(
                msg@,
            ),
            Err(e) => decryption_of(ciphertext.0@, aad@, shared_secret.0@) == Err::<
                Seq<u8>,
                Error,
            >(e),
        },
{
    crate::ciphertext::decrypt_with_shared_secret(&ciphertext.0, aad, &shared_secret.0)
}

/// The session of one participant.
#[derive(Debug)]
pub struct Dkg(pub PubliclyVerifiableDkg);

impl Clone for Dkg {
    fn clone(&self) -> (out: Self)
        ensures
            out.0.validator_list() == self.0.validator_list(),
            out.0.params() == self.0.params(),
            out.0.own() == self.0.own(),
            out.0.order() == self.0.order(),
    {
        Dkg(self.0.clone())
    }
}

/// An update request for the handover of one slot.
#[derive(Debug, PartialEq, Eq)]
pub struct HandoverTranscript(pub crate::refresh::HandoverTranscript);

impl Dkg {
    /// A session with the given parameters for the participant `me` among
    /// `validators`: `InvalidDkgParameters` unless
    /// `0 < security_threshold <= shares_num`, else what the session itself
    /// refuses.
    pub fn new(
        tau: u32,
        shares_num: u32,
        security_threshold: u32,
        validators: &[Validator],
        me: &Validator,
    ) -> (out: Result<Dkg, Error>)
        ensures
            out is Ok <==> valid_parameters(security_threshold, shares_num) && session_accepts(
                validator_views(validators@),
                me@,
            ),
            match out {
                Ok(dkg) => {
                    &&& dkg.0.consistent()
                    &&& dkg.0.params().spec_tau() == tau
                    &&& dkg.0.params().threshold() == security_threshold
                    &&& dkg.0.params().shares() == shares_num
                    &&& dkg.0.own() == me@
                    &&& dkg.0.validator_list().len() == validators@.len()
                    &&& forall|j: int|
                        0 <= j < validators@.len() ==> dkg.0.validator_list()[(
                        #[trigger] validators@[j]).share_index as int] == validators@[j]@
                },
                Err(e) => if !valid_parameters(security_threshold, shares_num) {
                    e == Error::InvalidDkgParameters(shares_num, security_threshold)
                } else {
                    exists|params: DkgParams|
                        {
                            &&& params.threshold() == security_threshold
                            &&& params.shares() == shares_num
                            &&& #[trigger] session_rejects(
                                validator_views(validators@),
                                me@,
                                params,
                                e,
                            )
                        }
                },
            },
    {
        let dkg_params = match DkgParams::new(tau, security_threshold, shares_num) {
            Ok(p) => p,
            Err(e) => {
                return Err(e);
            },
        };
        match PubliclyVerifiableDkg::new(validators, &dkg_params, me) {
            Ok(dkg) => Ok(Dkg(dkg)),
            Err(e) => {
                assert(session_rejects(validator_views(validators@), me@, dkg_params, e));
                Err(e)
            },
        }
    }

    /// Deals a fresh secret drawn from `rng` in this session.
    pub fn generate_transcript(&self, rng: &mut StdRng) -> (out: Result<Transcript, Error>)
        ensures
            match out {
                Ok(t) => self.0.validator_list().len() >= self.0.params().shares() && exists|
                    phi: Seq<nat>,
                |
                    #[trigger] deals_secret(
                        t@,
                        phi,
                        phi[0],
                        self.0.params().threshold() as nat,
                        keys_of(self.0.validator_list()),
                        domain_points(self.0.order(), self.0.validator_list().len()),
                    ),
                Err(e) => self.0.validator_list().len() < self.0.params().shares() && e
                    == Error::InsufficientValidators(
                    self.0.validator_list().len() as u32,
                    self.0.params().shares(),
                ),
            },
    {
        self.0.generate_transcript(rng)
    }

    /// Checks the messages at ingestion and aggregates their transcripts.
    pub fn aggregate_transcripts(&self, messages: &[ValidatorMessage]) -> (out: Result<
        AggregatedTranscript,
        Error,
    >)
        ensures
            match out {
                Ok(agg) => {
                    &&& messages@.len() > 0
                    &&& ingestion_gives(
                        message_views(messages@),
                        self.0.validator_list().len(),
                        self.0.params().threshold() as nat,
                        Ok(()),
                    )
                    &&& agg.0.aggregate@ == aggregate_of(transcripts_of(message_views(messages@)))
                    &&& agg.0.aggregate@.coeffs.len() > 0
                    &&& agg.0.public_key@ == agg.0.aggregate@.coeffs[0]
                },
                Err(e) => {
                    ||| ingestion_gives(
                        message_views(messages@),
                        self.0.validator_list().len(),
                        self.0.params().threshold() as nat,
                        Err(e),
                    )
                    ||| messages@.len() == 0 && e == Error::NoTranscriptsToAggregate
                },
            },
    {
        match self.0.aggregate_transcripts(messages) {
            Ok(agg) => Ok(AggregatedTranscript(agg)),
            Err(e) => Err(e),
        }
    }

    /// Updates for a refresh of every validator of the session.
    pub fn generate_refresh_transcript(&self, rng: &mut StdRng) -> (out: Result<RefreshTranscript, Error>)
        ensures
            match out {
                Ok(transcript) => exists|poly: Seq<nat>| #[trigger]
                    deals_updates_with_root(
                        transcript,
                        index_sequence(self.0.validator_list().len()),
                        domain_points(self.0.order(), self.0.validator_list().len()),
                        keys_of(self.0.validator_list()),
                        poly,
                        0,
                        self.0.params().threshold() as nat,
                    ),
                Err(_) => false,
            },
    {
        self.0.generate_refresh_transcript(rng)
    }

    /// The transcript with which the holder of the incoming key pair asks
    /// for a slot of the aggregate.
    pub fn generate_handover_transcript(
        &self,
        aggregate: &AggregatedTranscript,
        handover_slot_index: u32,
        incoming_validator_keypair: &Keypair,
    ) -> (out: Result<HandoverTranscript, Error>)
        ensures
            match out {
                Ok(t) => {
                    &&& handover_slot_index < self.0.validator_list().len()
                    &&& handover_slot_index < aggregate.0.aggregate@.shares.len()
                    &&& t.0.share_index == handover_slot_index
                    &&& t.0.old_blinded_share@ == aggregate.0.aggregate@.shares[handover_slot_index as int]
                    &&& t.0.double_blinded_share@ == crate::curve::g2_scaled(
                        t.0.old_blinded_share@,
                        incoming_validator_keypair@,
                    )
                    &&& t.0.new_blinding_commitment@ == public_key_of(incoming_validator_keypair@)
                    &&& t.0.challenge_response@ == crate::curve::g2_scaled(
                        self.0.validator_list()[handover_slot_index as int].public_key,
                        incoming_validator_keypair@,
                    )
                },
                Err(e) => e == Error::InvalidShareIndex(handover_slot_index) && (handover_slot_index
                    >= self.0.validator_list().len() || handover_slot_index
                    >= aggregate.0.aggregate@.shares.len()),
            },
    {
        match self.0.generate_handover_transcript(
            &aggregate.0,
            handover_slot_index,
            incoming_validator_keypair,
        ) {
            Ok(t) => Ok(HandoverTranscript(t)),
            Err(e) => Err(e),
        }
    }

    /// The participant whose session this is.
    pub fn me(&self) -> (out: &Validator)
        ensures
            out@ == self.0.own(),
    {
        self.0.me()
    }

    /// The domain points of the validators, in the order of share indices.
    pub fn domain_points(&self) -> (out: Vec<Scalar>)
        ensures
            scalar_views(out@) == domain_points(self.0.order(), self.0.validator_list().len()),
            out@.len() == self.0.validator_list().len(),
    {
        self.0.domain_points()
    }
}

/// The validators of a sequence of messages.
pub open spec fn senders_of(msgs: Seq<(ValidatorView, TranscriptView)>) -> Seq<ValidatorView> {
    msgs.map_values(|m: (ValidatorView, TranscriptView)| m.0)
}

/// Whether `out` is what the verification of an aggregate against the
/// messages gives. The checks come in this order: more messages than
/// validators, or more validators than the machine can index
/// (`InvalidAggregateVerificationParameters`); a repeated share index among
/// the senders (`DuplicatedShareIndex`); the proof of knowledge
/// (`InvalidTranscriptAggregate`); and the check of the aggregate against
/// the senders and the transcripts.
pub open spec fn verification_gives(
    agg: TranscriptView,
    validators_num: u32,
    msgs: Seq<(ValidatorView, TranscriptView)>,
    out: Result<bool, Error>,
) -> bool {
    if validators_num < msgs.len() || domain_size(validators_num as nat) > usize::MAX {
        out == Err::<bool, Error>(
            Error::InvalidAggregateVerificationParameters(validators_num, clamped(msgs.len())),
        )
    } else if !distinct_share_indices(senders_of(msgs)) {
        exists|i: int|
            first_repeat(senders_of(msgs), i) && out == Err::<bool, Error>(
                Error::DuplicatedShareIndex(senders_of(msgs)[i].share_index),
            )
    } else if !proof_of_knowledge_holds(agg) {
        out == Err::<bool, Error>(Error::InvalidTranscriptAggregate)
    } else {
        aggregation_check_gives(
            agg.coeffs,
            agg.shares,
            senders_of(msgs),
            domain_size(validators_num as nat),
            transcripts_of(msgs),
            out,
        )
    }
}

/// Whether `map` holds the domain points of the selected validators: its
/// indices are the share indices of the selected validators that the
/// session knows, and the value of an index is the domain point of it.
pub open spec fn selects(
    map: IndexMap<Scalar>,
    selected: Seq<ValidatorView>,
    validators: nat,
    order: nat,
) -> bool {
    &&& map.ordered()
    &&& forall|x: u32|
        #[trigger] map.has(x) <==> x < validators && exists|k: int|
            0 <= k < selected.len() && (#[trigger] selected[k]).share_index == x
    &&& forall|x: u32| #[trigger] map.has(x) ==> map.value_of(x)@ == domain_point(order, x as nat)
}

/// An aggregate together with the group public key it commits to.
#[derive(Debug, PartialEq, Eq)]
pub struct AggregatedTranscript(pub crate::pvss::AggregatedTranscript);

impl Clone for AggregatedTranscript {
    fn clone(&self) -> (out: Self)
        ensures
            out.0.aggregate@ == self.0.aggregate@,
            out.0.public_key@ == self.0.public_key@,
    {
        AggregatedTranscript(self.0.clone())
    }
}

/// A decryption share of the simple variant together with the domain point
/// of the validator that made it.
#[derive(Debug, PartialEq, Eq)]
pub struct DecryptionShareSimple {
    pub share: crate::decryption::DecryptionShareSimple,
    pub domain_point: Scalar,
}

impl Clone for DecryptionShareSimple {
    fn clone(&self) -> (out: Self)
        ensures
            out.share@ == self.share@,
            out.domain_point@ == self.domain_point@,
    {
        DecryptionShareSimple { share: self.share.clone(), domain_point: self.domain_point.clone() }
    }
}

impl AggregatedTranscript {
    /// The aggregate of the transcripts of the messages, which must have
    /// one shape.
    pub fn new(messages: &[ValidatorMessage]) -> (out: Result<AggregatedTranscript, Error>)
        requires
            same_shape(transcripts_of(message_views(messages@))),
        ensures
            match out {
                Ok(agg) => {
                    &&& messages@.len() > 0
                    &&& agg.0.aggregate@ == aggregate_of(transcripts_of(message_views(messages@)))
                    &&& agg.0.aggregate@.coeffs.len() > 0
                    &&& agg.0.public_key@ == agg.0.aggregate@.coeffs[0]
                },
                Err(e) => if messages@.len() == 0 {
                    e == Error::NoTranscriptsToAggregate
                } else {
                    e == Error::InvalidTranscriptAggregate && transcripts_of(
                        message_views(messages@),
                    )[0].coeffs.len() == 0
                },
            },
    {
        let ghost msgs = message_views(messages@);
        let mut transcripts: Vec<PubliclyVerifiableSS> = Vec::new();
        let mut i: usize = 0;
        while i < messages.len()
            invariant
                i <= messages@.len(),
                msgs == message_views(messages@),
                transcripts@.len() == i,
                forall|k: int| 0 <= k < i ==> (#[trigger] transcripts@[k])@ == msgs[k].1,
            decreases messages@.len() - i,
        {
            assert(msgs[i as int] == (messages@[i as int].0@, messages@[i as int].1@));
            transcripts.push(messages[i].1.clone());
            i += 1;
        }
        assert(transcript_views(transcripts@) =~= transcripts_of(msgs));
        match crate::pvss::AggregatedTranscript::from_transcripts(transcripts.as_slice()) {
            Ok(agg) => Ok(AggregatedTranscript(agg)),
            Err(e) => Err(e),
        }
    }

    /// Verifies the aggregate against the messages it claims to sum, for a
    /// session of `validators_num` validators.
    pub fn verify(&self, validators_num: u32, messages: &[ValidatorMessage]) -> (out: Result<bool, Error>)
        ensures
            verification_gives(self.0.aggregate@, validators_num, message_views(messages@), out),
    {
        let ghost msgs = message_views(messages@);
        let count = if messages.len() > u32::MAX as usize {
            u32::MAX
        } else {
            messages.len() as u32
        };
        if (validators_num as usize) < messages.len() {
            return Err(Error::InvalidAggregateVerificationParameters(validators_num, count));
        }
        let size = domain_size_for(validators_num);
        if size > usize::MAX as u64 {
            return Err(Error::InvalidAggregateVerificationParameters(validators_num, count));
        }
        let mut validators: Vec<Validator> = Vec::new();
        let mut pvss_list: Vec<PubliclyVerifiableSS> = Vec::new();
        let mut i: usize = 0;
        while i < messages.len()
            invariant
                i <= messages@.len(),
                msgs == message_views(messages@),
                validators@.len() == i,
                pvss_list@.len() == i,
                forall|k: int| 0 <= k < i ==> (#[trigger] validators@[k])@ == msgs[k].0,
                forall|k: int| 0 <= k < i ==> (#[trigger] pvss_list@[k])@ == msgs[k].1,
            decreases messages@.len() - i,
        {
            assert(msgs[i as int] == (messages@[i as int].0@, messages@[i as int].1@));
            validators.push(messages[i].0.clone());
            pvss_list.push(messages[i].1.clone());
            i += 1;
        }
        assert(validator_views(validators@) =~= senders_of(msgs));
        assert(transcript_views(pvss_list@) =~= transcripts_of(msgs));
        match assert_no_share_duplicates(validators.as_slice()) {
            Ok(_) => {},
            Err(e) => {
                return Err(e);
            },
        }
        if !self.0.aggregate.verify_optimistic() {
            return Err(Error::InvalidTranscriptAggregate);
        }
        do_verify_aggregation(
            &self.0.aggregate.coeffs,
            &self.0.aggregate.shares,
            validators.as_slice(),
            size as usize,
            pvss_list.as_slice(),
        )
    }

    /// The domain points of the selected validators that the session
    /// knows, by share index.
    pub fn selected_domain_points(dkg: &Dkg, selected_validators: &[Validator]) -> (out: IndexMap<Scalar>)
        ensures
            selects(
                out,
                validator_views(selected_validators@),
                dkg.0.validator_list().len(),
                dkg.0.order(),
            ),
    {
        let ghost selected = validator_views(selected_validators@);
        let ghost validators = dkg.0.validator_list().len();
        let ghost order = dkg.0.order();
        let mut out: IndexMap<Scalar> = IndexMap::new();
        let mut i: usize = 0;
        while i < selected_validators.len()
            invariant
                i <= selected_validators@.len(),
                selected == validator_views(selected_validators@),
                validators == dkg.0.validator_list().len(),
                order == dkg.0.order(),
                out.ordered(),
                forall|x: u32|
                    #[trigger] out.has(x) <==> x < validators && exists|k: int|
                        0 <= k < i && (#[trigger] selected[k]).share_index == x,
                forall|x: u32|
                    #[trigger] out.has(x) ==> out.value_of(x)@ == domain_point(order, x as nat),
            decreases selected_validators@.len() - i,
        {
            let index = selected_validators[i].share_index;
            assert(selected[i as int] == selected_validators@[i as int]@);
            let ghost before = out;
            match dkg.0.get_domain_point(index) {
                Ok(point) => {
                    out = out.insert(index, point);
                    assert forall|x: u32| #[trigger] out.has(x) implies x < validators && exists|
                        k: int,
                    |
                        0 <= k < i + 1 && (#[trigger] selected[k]).share_index == x by {
                        if x == index {
                            assert(selected[i as int].share_index == x);
                        } else {
                            assert(before.has(x));
                            let k = choose|k: int|
                                0 <= k < i && (#[trigger] selected[k]).share_index == x;
                            assert(selected[k].share_index == x);
                        }
                    }
                    assert forall|x: u32|
                        x < validators && (exists|k: int|
                            0 <= k < i + 1 && (#[trigger] selected[k]).share_index
                                == x) implies #[trigger] out.has(x) by {
                        let k = choose|k: int|
                            0 <= k < i + 1 && (#[trigger] selected[k]).share_index == x;
                        if k < i {
                            assert(before.has(x));
                        }
                    }
                    assert forall|x: u32| #[trigger] out.has(x) implies out.value_of(x)@
                        == domain_point(order, x as nat) by {
                        if x != index {
                            assert(before.has(x));
                        }
                    }
                },
                Err(_) => {
                    assert forall|x: u32|
                        x < validators && (exists|k: int|
                            0 <= k < i + 1 && (#[trigger] selected[k]).share_index
                                == x) implies #[trigger] out.has(x) by {
                        let k = choose|k: int|
                            0 <= k < i + 1 && (#[trigger] selected[k]).share_index == x;
                        assert(k < i);
                    }
                    assert forall|x: u32| #[trigger] out.has(x) implies x < validators && exists|
                        k: int,
                    |
                        0 <= k < i + 1 && (#[trigger] selected[k]).share_index == x by {
                        let k = choose|k: int|
                            0 <= k < i && (#[trigger] selected[k]).share_index == x;
                        assert(selected[k].share_index == x);
                    }
                },
            }
            i += 1;
        }
        out
    }

    /// A decryption share of the precomputed variant for the session's own
    /// share, for the selected validators.
    pub fn create_decryption_share_precomputed(
        &self,
        dkg: &Dkg,
        ciphertext_header: &CiphertextHeader,
        aad: &[u8],
        validator_keypair: &Keypair,
        selected_validators: &[Validator],
    ) -> (out: Result<DecryptionSharePrecomputed, Error>)
        ensures
            exists|map: IndexMap<Scalar>|
                {
                    let share_index = dkg.0.own().share_index;
                    &&& #[trigger] selects(
                        map,
                        validator_views(selected_validators@),
                        dkg.0.validator_list().len(),
                        dkg.0.order(),
                    )
                    &&& match out {
                        Ok(share) => {
                            &&& share_index < self.0.aggregate@.shares.len()
                            &&& map.has(share_index)
                            &&& validator_keypair@ != 0
                            &&& header_verifies(ciphertext_header.0@, aad@)
                            &&& share@ == precomputed_share_of(
                                share_index,
                                ciphertext_header.0.commitment@,
                                unblinded(
                                    self.0.aggregate@.shares[share_index as int],
                                    validator_keypair@,
                                ),
                                validator_keypair@,
                                lagrange_coefficient(
                                    scalar_views(map.spec_values()),
                                    position_of(map.spec_keys(), share_index),
                                    0,
                                ),
                            )
                        },
                        Err(e) => if share_index >= self.0.aggregate@.shares.len() {
                            e == Error::InvalidShareIndex(share_index)
                        } else if !map.has(share_index) {
                            e == Error::InvalidShareIndex(share_index)
                        } else if validator_keypair@ == 0 {
                            e == Error::ArithmeticError
                        } else {
                            e == Error::CiphertextVerificationFailed && !header_verifies(
                                ciphertext_header.0@,
                                aad@,
                            )
                        },
                    }
                },
    {
        let map = AggregatedTranscript::selected_domain_points(dkg, selected_validators);
        let share_index = dkg.0.me().share_index;
        let out = self.0.aggregate.create_decryption_share_precomputed(
            &ciphertext_header.0,
            aad,
            validator_keypair,
            share_index,
            &map,
        );
        assert(selects(
            map,
            validator_views(selected_validators@),
            dkg.0.validator_list().len(),
            dkg.0.order(),
        ));
        out
    }

    /// A decryption share of the simple variant for the session's own
    /// share, with the session's own domain point.
    pub fn create_decryption_share_simple(
        &self,
        dkg: &Dkg,
        ciphertext_header: &CiphertextHeader,
        aad: &[u8],
        validator_keypair: &Keypair,
    ) -> (out: Result<DecryptionShareSimple, Error>)
        ensures
            match out {
                Ok(share) => {
                    let share_index = dkg.0.own().share_index;
                    &&& share_index < self.0.aggregate@.shares.len()
                    &&& validator_keypair@ != 0
                    &&& header_verifies(ciphertext_header.0@, aad@)
                    &&& share.share@ == simple_share_of(
                        ciphertext_header.0.commitment@,
                        unblinded(self.0.aggregate@.shares[share_index as int], validator_keypair@),
                        validator_keypair@,
                    )
                    &&& share.domain_point@ == domain_point(dkg.0.order(), share_index as nat)
                },
                Err(e) => if dkg.0.own().share_index >= self.0.aggregate@.shares.len() {
                    e == Error::InvalidShareIndex(dkg.0.own().share_index)
                } else if validator_keypair@ == 0 {
                    e == Error::ArithmeticError
                } else {
                    e == Error::CiphertextVerificationFailed && !header_verifies(
                        ciphertext_header.0@,
                        aad@,
                    )
                },
            },
    {
        let share_index = dkg.0.me().share_index;
        let share = match self.0.aggregate.create_decryption_share_simple(
            &ciphertext_header.0,
            aad,
            validator_keypair,
            share_index,
        ) {
            Ok(share) => share,
            Err(e) => {
                return Err(e);
            },
        };
        dkg.0.check_consistent();
        match dkg.0.get_domain_point(share_index) {
            Ok(domain_point) => Ok(DecryptionShareSimple { share, domain_point }),
            Err(e) => Err(e),
        }
    }

    /// The group public key.
    pub fn public_key(&self) -> (out: DkgPublicKey)
        ensures
            out@ == self.0.public_key@,
    {
        DkgPublicKey(self.0.public_key.clone())
    }

    /// The aggregate after a refresh; see
    /// [`PubliclyVerifiableSS::refresh`]. `InvalidTranscriptAggregate`
    /// where the aggregate holds no commitment.
    pub fn refresh(
        &self,
        update_transcripts: &IndexMap<RefreshTranscript>,
        validator_keys_map: &IndexMap<PublicKey>,
    ) -> (out: Result<AggregatedTranscript, Error>)
        ensures
            match out {
                Ok(after) => {
                    &&& refresh_accepts(
                        self.0.aggregate@.shares.len(),
                        *update_transcripts,
                        *validator_keys_map,
                    )
                    &&& after.0.aggregate@ == refreshed(
                        self.0.aggregate@,
                        update_transcripts.spec_values(),
                    )
                    &&& after.0.aggregate@.coeffs.len() > 0
                    &&& after.0.public_key@ == after.0.aggregate@.coeffs[0]
                },
                Err(e) => match refresh_error(
                    self.0.aggregate@.shares.len(),
                    *update_transcripts,
                    *validator_keys_map,
                ) {
                    Some(refused) => e == refused,
                    None => self.0.aggregate@.coeffs.len() == 0 && e
                        == Error::InvalidTranscriptAggregate,
                },
            },
    {
        let updated_aggregate = match self.0.aggregate.refresh(update_transcripts, validator_keys_map) {
            Ok(updated) => updated,
            Err(e) => {
                return Err(e);
            },
        };
        match crate::pvss::AggregatedTranscript::from_aggregate(updated_aggregate) {
            Ok(agg) => Ok(AggregatedTranscript(agg)),
            Err(e) => Err(e),
        }
    }
}

/// The target-field parts of a sequence of shares.
pub open spec fn share_values(shares: Seq<DecryptionShareSimple>) -> Seq<Seq<u8>> {
    shares.map_values(|s: DecryptionShareSimple| s.share@.decryption_share)
}

/// The domain points of a sequence of shares.
pub open spec fn share_points(shares: Seq<DecryptionShareSimple>) -> Seq<nat> {
    shares.map_values(|s: DecryptionShareSimple| s.domain_point@)
}

/// Combines simple shares: each is raised to the Lagrange coefficient at
/// zero of its domain point among the points of all of them, and the powers
/// are multiplied in order.
pub fn combine_shares_simple(shares: &[DecryptionShareSimple]) -> (out: SharedSecret)
    ensures
        out.0@ == weighted_product(
            share_values(shares@),
            lagrange_basis(share_points(shares@), 0),
            shares@.len(),
        ),
{
    let mut domain_points: Vec<Scalar> = Vec::new();
    let mut inner: Vec<crate::decryption::DecryptionShareSimple> = Vec::new();
    let mut i: usize = 0;
    while i < shares.len()
        invariant
            i <= shares@.len(),
            domain_points@.len() == i,
            inner@.len() == i,
            forall|k: int| 0 <= k < i ==> (#[trigger] domain_points@[k])@ == shares@[k].domain_point@,
            forall|k: int| 0 <= k < i ==> (#[trigger] inner@[k])@ == shares@[k].share@,
        decreases shares@.len() - i,
    {
        domain_points.push(shares[i].domain_point.clone());
        inner.push(shares[i].share.clone());
        i += 1;
    }
    assert(scalar_views(domain_points@) =~= share_points(shares@));
    assert(crate::combine::simple_share_values(inner@) =~= share_values(shares@));
    let lagrange_coefficients = prepare_combine_simple(domain_points.as_slice());
    SharedSecret(share_combine_simple(inner.as_slice(), lagrange_coefficients.as_slice()))
}

} // verus!
