//! What a session does with the transcripts that validators send: checking
//! them at ingestion, aggregating them, and dealing its own transcripts and
//! updates.

use vstd::prelude::*;
use crate::curve::{g1_views, g2_views, G1Point, G2Point};
use crate::dkg::PubliclyVerifiableDkg;
use crate::domain::{domain_point, domain_points};
use crate::error::Error;
use crate::index_map::IndexMap;
use crate::key_share::BlindedKeyShare;
use crate::pvss::{
    aggregate_of,
    deals_secret,
    keys_of,
    proof_of_knowledge_holds,
    same_shape,
    transcript_views,
    AggregatedTranscript,
    PubliclyVerifiableSS,
    TranscriptView,
};
use crate::refresh::{deals_updates_with_root, HandoverTranscript, UpdateTranscript};
use crate::scalar::{scalar_views, Scalar};
use crate::validator::{public_key_of, Keypair, PublicKey, Validator, ValidatorView};
use rand::rngs::StdRng;

verus! {

/// A transcript together with the validator that sent it.
pub type ValidatorMessage = (Validator, PubliclyVerifiableSS);

/// Whether two vectors of points hold the same points.
pub fn same_g1_points(a: &Vec<G1Point>, b: &Vec<G1Point>) -> (same: bool)
    ensures
        same == (g1_views(a@) == g1_views(b@)),
{
    if a.len() != b.len() {
        assert(g1_views(a@).len() != g1_views(b@).len());
        return false;
    }
    let mut i: usize = 0;
    while i < a.len()
        invariant
            i <= a@.len(),
            a@.len() == b@.len(),
            forall|k: int| 0 <= k < i ==> (#[trigger] a@[k])@ == b@[k]@,
        decreases a@.len() - i,
    {
        if !a[i].equals(&b[i]) {
            assert(g1_views(a@)[i as int] != g1_views(b@)[i as int]);
            return false;
        }
        i += 1;
    }
    assert(g1_views(a@) =~= g1_views(b@));
    true
}

/// Whether two vectors of points hold the same points.
pub fn same_g2_points(a: &Vec<G2Point>, b: &Vec<G2Point>) -> (same: bool)
    ensures
        same == (g2_views(a@) == g2_views(b@)),
{
    if a.len() != b.len() {
        assert(g2_views(a@).len() != g2_views(b@).len());
        return false;
    }
    let mut i: usize = 0;
    while i < a.len()
        invariant
            i <= a@.len(),
            a@.len() == b@.len(),
            forall|k: int| 0 <= k < i ==> (#[trigger] a@[k])@ == b@[k]@,
        decreases a@.len() - i,
    {
        if !a[i].equals(&b[i]) {
            assert(g2_views(a@)[i as int] != g2_views(b@)[i as int]);
            return false;
        }
        i += 1;
    }
    assert(g2_views(a@) =~= g2_views(b@));
    true
}

/// Whether two transcripts hold the same commitments, shares and proof.
pub fn same_transcript<S, T>(a: &PubliclyVerifiableSS<S>, b: &PubliclyVerifiableSS<T>) -> (same: bool)
    ensures
        same == (a@ == b@),
{
    same_g1_points(&a.coeffs, &b.coeffs) && same_g2_points(&a.shares, &b.shares) && a.sigma.equals(
        &b.sigma,
    )
}

/// What a message is in contracts.
pub open spec fn message_views(msgs: Seq<ValidatorMessage>) -> Seq<(ValidatorView, TranscriptView)> {
    msgs.map_values(|m: ValidatorMessage| (m.0@, m.1@))
}

/// Whether an earlier message came from the address of the `i`-th.
pub open spec fn sender_seen_before(msgs: Seq<(ValidatorView, TranscriptView)>, i: int) -> bool {
    exists|k: int| 0 <= k < i && (#[trigger] msgs[k]).0.address == msgs[i].0.address
}

/// Whether an earlier message carried the transcript of the `i`-th.
pub open spec fn transcript_seen_before(msgs: Seq<(ValidatorView, TranscriptView)>, i: int) -> bool {
    exists|k: int| 0 <= k < i && (#[trigger] msgs[k]).1 == msgs[i].1
}

/// Whether a transcript has the shape of the session and its proof of
/// knowledge holds.
pub open spec fn transcript_fits(t: TranscriptView, validators: nat, threshold: nat) -> bool {
    &&& t.coeffs.len() == threshold
    &&& t.shares.len() == validators
    &&& proof_of_knowledge_holds(t)
}

/// Whether the `i`-th message passes ingestion, given the ones before it.
pub open spec fn message_passes(
    msgs: Seq<(ValidatorView, TranscriptView)>,
    validators: nat,
    threshold: nat,
    i: int,
) -> bool {
    &&& msgs[i].0.share_index < validators
    &&& !sender_seen_before(msgs, i)
    &&& !transcript_seen_before(msgs, i)
    &&& transcript_fits(msgs[i].1, validators, threshold)
}

/// Whether `e` is the error with which the `i`-th message is refused:
/// `UnknownDealer` for a share index outside the session, `DuplicateDealer`
/// for an address seen before, `DuplicateTranscript` for a transcript seen
/// before, `InvalidPvssTranscript` for a transcript that has not the shape
/// of the session or whose proof of knowledge fails; each with the
/// sender's address.
pub open spec fn message_fault(
    msgs: Seq<(ValidatorView, TranscriptView)>,
    validators: nat,
    threshold: nat,
    i: int,
    e: Error,
) -> bool {
    if msgs[i].0.share_index >= validators {
        e matches Error::UnknownDealer(a) && a@ == msgs[i].0.address
    } else if sender_seen_before(msgs, i) {
        e matches Error::DuplicateDealer(a) && a@ == msgs[i].0.address
    } else if transcript_seen_before(msgs, i) {
        e matches Error::DuplicateTranscript(a) && a@ == msgs[i].0.address
    } else if !transcript_fits(msgs[i].1, validators, threshold) {
        e matches Error::InvalidPvssTranscript(a) && a@ == msgs[i].0.address
    } else {
        false
    }
}

/// The share indices `0, 1, ..` below `n`.
pub open spec fn index_sequence(n: nat) -> Seq<u32> {
    Seq::new(n, |i: int| i as u32)
}

/// A count as a `u32`, the largest where it does not fit.
pub open spec fn clamped(n: nat) -> u32 {
    if n > u32::MAX {
        u32::MAX
    } else {
        n as u32
    }
}

/// Whether `out` is what ingestion of the messages gives: the fault of the
/// first message that does not pass; else `TooManyTranscripts` where there
/// are more messages than validators; else success.
pub open spec fn ingestion_gives(
    msgs: Seq<(ValidatorView, TranscriptView)>,
    validators: nat,
    threshold: nat,
    out: Result<(), Error>,
) -> bool {
    match out {
        Ok(_) => {
            &&& forall|i: int| 0 <= i < msgs.len() ==> message_passes(msgs, validators, threshold, i)
            &&& msgs.len() <= validators
        },
        Err(e) => {
            ||| exists|i: int|
                {
                    &&& 0 <= i < msgs.len()
                    &&& forall|k: int| 0 <= k < i ==> message_passes(msgs, validators, threshold, k)
                    &&& #[trigger] message_fault(msgs, validators, threshold, i, e)
                }
            ||| {
                &&& forall|i: int|
                    0 <= i < msgs.len() ==> message_passes(msgs, validators, threshold, i)
                &&& msgs.len() > validators
                &&& e == Error::TooManyTranscripts(clamped(validators), clamped(msgs.len()))
            }
        },
    }
}

/// The transcripts of a sequence of messages.
pub open spec fn transcripts_of(msgs: Seq<(ValidatorView, TranscriptView)>) -> Seq<TranscriptView> {
    msgs.map_values(|m: (ValidatorView, TranscriptView)| m.1)
}

pub(crate) fn clamp(n: usize) -> (out: u32)
    ensures
        out == clamped(n as nat),
{
    if n > u32::MAX as usize {
        u32::MAX
    } else {
        n as u32
    }
}

impl PubliclyVerifiableDkg {
    /// Deals a fresh secret drawn from `rng` in this session.
    pub fn generate_transcript(&self, rng: &mut StdRng) -> (out: Result<PubliclyVerifiableSS, Error>)
        ensures
            match out {
                Ok(t) => self.validator_list().len() >= self.params().shares() && exists|
                    phi: Seq<nat>,
                |
                    #[trigger] deals_secret(
                        t@,
                        phi,
                        phi[0],
                        self.params().threshold() as nat,
                        keys_of(self.validator_list()),
                        domain_points(self.order(), self.validator_list().len()),
                    ),
                Err(e) => self.validator_list().len() < self.params().shares() && e
                    == Error::InsufficientValidators(
                    self.validator_list().len() as u32,
                    self.params().shares(),
                ),
            },
    {
        let secret = Scalar::random(rng);
        let out = PubliclyVerifiableSS::new(&secret, self, rng);
        proof {
            if out is Ok {
                let phi = choose|phi: Seq<nat>| #[trigger]
                    deals_secret(
                        out->Ok_0@,
                        phi,
                        secret@,
                        self.params().threshold() as nat,
                        keys_of(self.validator_list()),
                        domain_points(self.order(), self.validator_list().len()),
                    );
                assert(deals_secret(
                    out->Ok_0@,
                    phi,
                    phi[0],
                    self.params().threshold() as nat,
                    keys_of(self.validator_list()),
                    domain_points(self.order(), self.validator_list().len()),
                ));
            }
        }
        secret.zeroize();
        out
    }

    /// Checks the messages at ingestion, in their order.
    pub fn verify_transcripts(&self, messages: &[ValidatorMessage]) -> (out: Result<(), Error>)
        ensures
            ingestion_gives(
                message_views(messages@),
                self.validator_list().len(),
                self.params().threshold() as nat,
                out,
            ),
    {
        let validators = self.validators();
        let count = validators.len();
        let threshold = self.dkg_params().security_threshold();
        let ghost msgs = message_views(messages@);
        let mut i: usize = 0;
        while i < messages.len()
            invariant
                i <= messages@.len(),
                msgs == message_views(messages@),
                count == self.validator_list().len(),
                threshold == self.params().threshold(),
                forall|k: int| 0 <= k < i ==> message_passes(msgs, count as nat, threshold as nat, k),
            decreases messages@.len() - i,
        {
            let sender = &messages[i].0;
            let transcript = &messages[i].1;
            assert(msgs[i as int] == (sender@, transcript@));
            if sender.share_index as usize >= count {
                let e = Error::UnknownDealer(sender.address.to_string());
                assert(message_fault(msgs, count as nat, threshold as nat, i as int, e));
                return Err(e);
            }
            let mut seen_sender = false;
            let mut seen_transcript = false;
            let mut k: usize = 0;
            while k < i
                invariant
                    k <= i < messages@.len(),
                    msgs == message_views(messages@),
                    msgs[i as int] == (sender@, transcript@),
                    seen_sender == (exists|q: int|
                        0 <= q < k && (#[trigger] msgs[q]).0.address == msgs[i as int].0.address),
                    seen_transcript == (exists|q: int|
                        0 <= q < k && (#[trigger] msgs[q]).1 == msgs[i as int].1),
                decreases i - k,
            {
                assert(msgs[k as int] == (messages@[k as int].0@, messages@[k as int].1@));
                if messages[k].0.address.equals(&sender.address) {
                    seen_sender = true;
                }
                if same_transcript(&messages[k].1, transcript) {
                    seen_transcript = true;
                }
                k += 1;
            }
            if seen_sender {
                let e = Error::DuplicateDealer(sender.address.to_string());
                assert(message_fault(msgs, count as nat, threshold as nat, i as int, e));
                return Err(e);
            }
            if seen_transcript {
                let e = Error::DuplicateTranscript(sender.address.to_string());
                assert(message_fault(msgs, count as nat, threshold as nat, i as int, e));
                return Err(e);
            }
            assert(transcript@.coeffs.len() == transcript.coeffs@.len());
            assert(transcript@.shares.len() == transcript.shares@.len());
            if transcript.coeffs.len() != threshold as usize || transcript.shares.len() != count
                || !transcript.verify_optimistic() {
                let e = Error::InvalidPvssTranscript(sender.address.to_string());
                assert(message_fault(msgs, count as nat, threshold as nat, i as int, e));
                return Err(e);
            }
            assert(message_passes(msgs, count as nat, threshold as nat, i as int));
            i += 1;
        }
        if messages.len() > count {
            return Err(Error::TooManyTranscripts(clamp(count), clamp(messages.len())));
        }
        Ok(())
    }

    /// Checks the messages at ingestion and aggregates their transcripts.
    pub fn aggregate_transcripts(&self, messages: &[ValidatorMessage]) -> (out: Result<
        AggregatedTranscript,
        Error,
    >)
        ensures
            match out {
                Ok(agg) => {
                    &&& messages@.len() > 0
                    &&& ingestion_gives(
                        message_views(messages@),
                        self.validator_list().len(),
                        self.params().threshold() as nat,
                        Ok(()),
                    )
                    &&& agg.aggregate@ == aggregate_of(transcripts_of(message_views(messages@)))
                    &&& agg.aggregate@.coeffs.len() > 0
                    &&& agg.public_key@ == agg.aggregate@.coeffs[0]
                },
                Err(e) => {
                    ||| ingestion_gives(
                        message_views(messages@),
                        self.validator_list().len(),
                        self.params().threshold() as nat,
                        Err(e),
                    )
                    ||| messages@.len() == 0 && e == Error::NoTranscriptsToAggregate
                },
            },
    {
        match self.verify_transcripts(messages) {
            Ok(_) => {},
            Err(e) => {
                return Err(e);
            },
        }
        let ghost msgs = message_views(messages@);
        let ghost count = self.validator_list().len();
        let ghost threshold = self.params().threshold() as nat;
        let mut transcripts: Vec<PubliclyVerifiableSS> = Vec::new();
        let mut i: usize = 0;
        while i < messages.len()
            invariant
                i <= messages@.len(),
                msgs == message_views(messages@),
                transcripts@.len() == i,
                forall|k: int| 0 <= k < i ==> (#[trigger] transcripts@[k])@ == msgs[k].1,
            decreases messages@.len() - i,
        {
            assert(msgs[i as int] == (messages@[i as int].0@, messages@[i as int].1@));
            transcripts.push(messages[i].1.clone());
            i += 1;
        }
        let ghost ts = transcript_views(transcripts@);
        assert(ts =~= transcripts_of(msgs));
        assert(same_shape(ts)) by {
            assert forall|j: int| 0 <= j < ts.len() implies (#[trigger] ts[j]).coeffs.len()
                == ts[0].coeffs.len() && ts[j].shares.len() == ts[0].shares.len() by {
                assert(message_passes(msgs, count, threshold, j));
                assert(message_passes(msgs, count, threshold, 0));
            }
        }
        self.dkg_params().security_threshold();
        match AggregatedTranscript::from_transcripts(transcripts.as_slice()) {
            Ok(agg) => Ok(agg),
            Err(e) => {
                proof {
                    if messages@.len() > 0 {
                        assert(message_passes(msgs, count, threshold, 0));
                        assert(ts[0].coeffs.len() == threshold);
                    }
                }
                Err(e)
            },
        }
    }

    /// The domain points of the validators, by share index.
    pub fn domain_point_map(&self) -> (out: IndexMap<Scalar>)
        ensures
            out.spec_keys() == index_sequence(self.validator_list().len()),
            scalar_views(out.spec_values()) == domain_points(
                self.order(),
                self.validator_list().len(),
            ),
    {
        let points = self.domain_points();
        self.check_consistent();
        let n = points.len();
        let ghost expected = domain_points(self.order(), self.validator_list().len());
        let mut out: IndexMap<Scalar> = IndexMap::new();
        let mut i: usize = 0;
        while i < n
            invariant
                i <= n == points@.len(),
                n <= u32::MAX,
                out.ordered(),
                out.spec_keys() == index_sequence(i as nat),
                out.spec_values().len() == i,
                forall|k: int| 0 <= k < i ==> (#[trigger] out.spec_values()[k])@ == points@[k]@,
            decreases n - i,
        {
            let ghost before = out;
            out = out.push_back(i as u32, points[i].clone());
            assert(out.spec_keys() =~= index_sequence((i + 1) as nat));
            assert forall|k: int| 0 <= k < i + 1 implies (#[trigger] out.spec_values()[k])@
                == points@[k]@ by {
                if k < i {
                    assert(out.spec_values()[k] == before.spec_values()[k]);
                }
            }
            i += 1;
        }
        assert(scalar_views(out.spec_values()) =~= scalar_views(points@));
        out
    }

    /// The domain point and the public key of every validator, by share
    /// index.
    pub fn domain_and_key_map(&self) -> (out: IndexMap<(Scalar, PublicKey)>)
        ensures
            out.spec_keys() == index_sequence(self.validator_list().len()),
            out.spec_values().len() == self.validator_list().len(),
            forall|i: int|
                0 <= i < self.validator_list().len() ==> {
                    &&& (#[trigger] out.spec_values()[i]).0@ == domain_point(self.order(), i as nat)
                    &&& out.spec_values()[i].1@ == self.validator_list()[i].public_key
                },
    {
        let points = self.domain_points();
        let validators = self.validators();
        let n = points.len();
        let mut out: IndexMap<(Scalar, PublicKey)> = IndexMap::new();
        let mut i: usize = 0;
        while i < n
            invariant
                i <= n == points@.len(),
                n == validators@.len(),
                n <= u32::MAX,
                out.ordered(),
                out.spec_keys() == index_sequence(i as nat),
                out.spec_values().len() == i,
                forall|k: int|
                    0 <= k < i ==> (#[trigger] out.spec_values()[k]).0@ == points@[k]@
                        && out.spec_values()[k].1@ == validators@[k].public_key@,
            decreases n - i,
        {
            let ghost before = out;
            out = out.push_back(i as u32, (points[i].clone(), validators[i].public_key.clone()));
            assert(out.spec_keys() =~= index_sequence((i + 1) as nat));
            assert forall|k: int| 0 <= k < i + 1 implies (#[trigger] out.spec_values()[k]).0@
                == points@[k]@ && out.spec_values()[k].1@ == validators@[k].public_key@ by {
                if k < i {
                    assert(out.spec_values()[k] == before.spec_values()[k]);
                }
            }
            i += 1;
        }
        assert forall|i: int| 0 <= i < self.validator_list().len() implies {
            &&& (#[trigger] out.spec_values()[i]).0@ == domain_point(self.order(), i as nat)
            &&& out.spec_values()[i].1@ == self.validator_list()[i].public_key
        } by {
            assert(scalar_views(points@)[i] == points@[i]@);
            assert(crate::validator::validator_views(validators@)[i] == validators@[i]@);
        }
        out
    }

    /// Updates for a refresh of every validator of the session, with an
    /// update polynomial drawn from `rng`.
    pub fn generate_refresh_transcript(&self, rng: &mut StdRng) -> (out: Result<UpdateTranscript, Error>)
        ensures
            match out {
                Ok(transcript) => exists|poly: Seq<nat>| #[trigger]
                    deals_updates_with_root(
                        transcript,
                        index_sequence(self.validator_list().len()),
                        domain_points(self.order(), self.validator_list().len()),
                        keys_of(self.validator_list()),
                        poly,
                        0,
                        self.params().threshold() as nat,
                    ),
                Err(_) => false,
            },
    {
        let targets = self.domain_and_key_map();
        let threshold = self.dkg_params().security_threshold();
        let transcript = UpdateTranscript::create_refresh_updates(&targets, threshold, rng);
        proof {
            let n = self.validator_list().len();
            assert(crate::refresh::target_points(targets) =~= domain_points(self.order(), n));
            assert(crate::refresh::target_keys(targets) =~= keys_of(self.validator_list()));
            let poly = choose|poly: Seq<nat>| #[trigger]
                deals_updates_with_root(
                    transcript,
                    targets.spec_keys(),
                    crate::refresh::target_points(targets),
                    crate::refresh::target_keys(targets),
                    poly,
                    0,
                    threshold as nat,
                );
            assert(deals_updates_with_root(
                transcript,
                index_sequence(n),
                domain_points(self.order(), n),
                keys_of(self.validator_list()),
                poly,
                0,
                self.params().threshold() as nat,
            ));
            assert(exists|poly: Seq<nat>| #[trigger]
                deals_updates_with_root(
                    transcript,
                    index_sequence(self.validator_list().len()),
                    domain_points(self.order(), self.validator_list().len()),
                    keys_of(self.validator_list()),
                    poly,
                    0,
                    self.params().threshold() as nat,
                ));
        }
        let out: Result<UpdateTranscript, Error> = Ok(transcript);
        assert(out->Ok_0 == transcript);
        out
    }

    /// The transcript with which the holder of the incoming key pair asks
    /// for a slot of the aggregate; `InvalidShareIndex` where the session or
    /// the aggregate has no such slot.
    pub fn generate_handover_transcript(
        &self,
        aggregate: &AggregatedTranscript,
        handover_slot_index: u32,
        incoming_validator_keypair: &Keypair,
    ) -> (out: Result<HandoverTranscript, Error>)
        ensures
            match out {
                Ok(t) => {
                    &&& handover_slot_index < self.validator_list().len()
                    &&& handover_slot_index < aggregate.aggregate@.shares.len()
                    &&& t.share_index == handover_slot_index
                    &&& t.old_blinded_share@ == aggregate.aggregate@.shares[handover_slot_index as int]
                    &&& t.double_blinded_share@ == crate::curve::g2_scaled(
                        t.old_blinded_share@,
                        incoming_validator_keypair@,
                    )
                    &&& t.new_blinding_commitment@ == public_key_of(incoming_validator_keypair@)
                    &&& t.challenge_response@ == crate::curve::g2_scaled(
                        self.validator_list()[handover_slot_index as int].public_key,
                        incoming_validator_keypair@,
                    )
                },
                Err(e) => e == Error::InvalidShareIndex(handover_slot_index) && (handover_slot_index
                    >= self.validator_list().len() || handover_slot_index
                    >= aggregate.aggregate@.shares.len()),
            },
    {
        let validators = self.validators();
        if handover_slot_index as usize >= validators.len() {
            return Err(Error::InvalidShareIndex(handover_slot_index));
        }
        let departing = &validators[handover_slot_index as usize];
        assert(crate::validator::validator_views(validators@)[handover_slot_index as int]
            == departing@);
        let share = match aggregate.aggregate.get_share_for_validator(departing) {
            Ok(share) => share,
            Err(e) => {
                return Err(e);
            },
        };
        Ok(
            HandoverTranscript::new(
                handover_slot_index,
                &share,
                &departing.public_key,
                incoming_validator_keypair,
            ),
        )
    }
}

impl<T: crate::pvss::Aggregate> PubliclyVerifiableSS<T> {
    /// Checks this aggregate in a session against the transcripts it claims
    /// to sum.
    pub fn verify_aggregation(&self, dkg: &PubliclyVerifiableDkg, pvss: &[PubliclyVerifiableSS]) -> (out:
        Result<bool, Error>)
        ensures
            crate::pvss::aggregation_check_gives(
                self@.coeffs,
                self@.shares,
                dkg.validator_list(),
                dkg.order(),
                transcript_views(pvss@),
                out,
            ),
    {
        let size = dkg.domain_size();
        crate::pvss::do_verify_aggregation(
            &self.coeffs,
            &self.shares,
            dkg.validators().as_slice(),
            size,
            pvss,
        )
    }
}

} // verus!
