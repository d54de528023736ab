//! The block-driven session: a state machine that counts blocks, says when
//! to issue a transcript, takes the transcripts and the aggregate that a
//! chain has agreed on, and ends with the final key.

use vstd::prelude::*;
use crate::curve::{g1_identity, g1_sum, g1_views, g2_views, pairing, pairing_of, G1Point, G2Point};
use crate::domain::{
    domain_elements,
    domain_order,
    domain_points,
    domain_size,
    domain_size_for,
    evaluate_over_domain,
    g1_fft,
};
use crate::index_map::IndexMap;
use crate::poly::{evaluate_polynomial, poly_eval, random_polynomial_with_secret, zeroize_polynomial};
use crate::pvss::{
    aggregate,
    aggregate_of,
    dealt_transcript,
    deals_secret,
    proof_of_knowledge_holds,
    same_shape,
    share_matches,
    transcript_views,
    AggregatedPvss,
    PubliclyVerifiableSS,
    TranscriptView,
};
use crate::scalar::{scalar_views, Scalar};
use crate::validator::{Keypair, PublicKey};
use rand::rngs::StdRng;
use vstd::string::StringExecFns;

verus! {

/// The parameters of a block-driven session.
#[derive(Clone, Copy, Debug, PartialEq, Eq, Structural)]
pub struct Params {
    pub tau: u64,
    pub security_threshold: u32,
    pub shares_num: u32,
    /// The number of blocks after which a dealer that has not seen its
    /// transcript on the chain issues it again.
    pub retry_after: u32,
}

/// A validator as the chain names it.
#[derive(Debug, PartialEq, Eq)]
pub struct TendermintValidator {
    pub power: u64,
    pub address: String,
    pub public_key: PublicKey,
}

impl Clone for TendermintValidator {
    fn clone(&self) -> (out: Self)
        ensures
            out.power == self.power,
            out.address@ == self.address@,
            out.public_key@ == self.public_key@,
    {
        TendermintValidator {
            power: self.power,
            address: self.address.clone(),
            public_key: self.public_key.clone(),
        }
    }
}

/// The validators of the chain, in the order in which shares are assigned.
#[derive(Debug, PartialEq, Eq)]
pub struct ValidatorSet {
    pub validators: Vec<TendermintValidator>,
}

impl ValidatorSet {
    /// The set of the given validators.
    pub fn new(validators: Vec<TendermintValidator>) -> (out: ValidatorSet)
        ensures
            out.validators == validators,
    {
        ValidatorSet { validators }
    }
}

/// A validator with the index of its share.
#[derive(Debug, PartialEq, Eq)]
pub struct IndexedValidator {
    pub validator: TendermintValidator,
    pub share_index: usize,
}

/// The states of the session.
#[derive(Debug, PartialEq, Eq)]
pub enum DkgState {
    /// Transcripts are being dealt.
    Sharing { accumulated_shares: u32, block: u32 },
    /// Enough transcripts are there to aggregate.
    Dealt,
    /// The aggregate is agreed on.
    Success { final_key: G1Point },
    /// The session has failed.
    Invalid,
}

/// What a dealer does at a block.
#[derive(Clone, Copy, Debug, PartialEq, Eq, Structural)]
pub enum PvssScheduler {
    Wait,
    Issue,
}

/// An aggregate together with the key it claims.
#[derive(Debug, PartialEq, Eq)]
pub struct Aggregation {
    pub vss: AggregatedPvss,
    pub final_key: G1Point,
}

impl Clone for Aggregation {
    fn clone(&self) -> (out: Self)
        ensures
            out.vss@ == self.vss@,
            out.final_key@ == self.final_key@,
    {
        Aggregation { vss: self.vss.clone(), final_key: self.final_key.clone() }
    }
}

/// A message of the session as it goes over the chain.
#[derive(Debug, PartialEq, Eq)]
pub enum Message {
    Deal(PubliclyVerifiableSS),
    Aggregate(Aggregation),
}

impl Clone for Message {
    fn clone(&self) -> (out: Self)
        ensures
            match (self, out) {
                (Message::Deal(a), Message::Deal(b)) => a@ == b@,
                (Message::Aggregate(a), Message::Aggregate(b)) => a.vss@ == b.vss@ && a.final_key@
                    == b.final_key@,
                _ => false,
            },
    {
        match self {
            Message::Deal(t) => Message::Deal(t.clone()),
            Message::Aggregate(a) => Message::Aggregate(a.clone()),
        }
    }
}

/// Why the session refuses.
#[derive(Clone, Copy, Debug, PartialEq, Eq, Structural)]
pub enum PvError {
    /// No domain for the number of shares, parameters out of range, or
    /// more validators than the domain has points.
    UnableToConstructDomain,
    /// The participant is not in the validator set.
    ValidatorNotFound,
    /// The session is in no state to deal.
    NotInDealingState,
    /// The session is in no state to aggregate.
    NotEnoughTranscripts,
    /// The sender is not in the validator set.
    UnknownDealer,
    /// The sender has dealt before.
    RepeatDealer(u32),
    /// The transcript's proof of knowledge fails, or a transcript has not
    /// the shape of the others.
    InvalidTranscript,
    /// Fewer shares are verified than the parameters ask for.
    InsufficientShares,
    /// The claimed key is not the sum of the dealt commitments.
    WrongFinalKey,
    /// The aggregate does not match the transcripts received.
    AggregationMismatch,
    /// The session is in no state to verify the message.
    WrongStateToVerify,
    /// The session is in no state to apply the message.
    WrongStateToApply,
}

impl PvError {
    /// The message of the error.
    pub open spec fn message(self) -> Seq<char> {
        match self {
            PvError::UnableToConstructDomain => "unable to construct domain"@,
            PvError::ValidatorNotFound => "could not find this validator in the provided validator set"@,
            PvError::NotInDealingState => "DKG is not in a valid state to deal PVSS shares"@,
            PvError::NotEnoughTranscripts => "Not enough PVSS transcripts received to aggregate"@,
            PvError::UnknownDealer => "dkg received unknown dealer"@,
            PvError::RepeatDealer(sender) => "Repeat dealer "@ + crate::error::decimal_text(
                sender as nat,
            ),
            PvError::InvalidTranscript => "Invalid PVSS transcript"@,
            PvError::InsufficientShares => "Aggregation failed because the verified shares was insufficient"@,
            PvError::WrongFinalKey => "The final key was not correctly derived from the aggregated transcripts"@,
            PvError::AggregationMismatch => "aggregation does not match received PVSS instances"@,
            PvError::WrongStateToVerify => "DKG state machine is not in correct state to verify this message"@,
            PvError::WrongStateToApply => "DKG state machine is not in correct state to apply this message"@,
        }
    }

    /// The message of the error.
    pub fn to_string(&self) -> (out: String)
        ensures
            out@ == self.message(),
    {
        match self {
            PvError::UnableToConstructDomain => String::from_str("unable to construct domain"),
            PvError::ValidatorNotFound => String::from_str(
                "could not find this validator in the provided validator set",
            ),
            PvError::NotInDealingState => String::from_str(
                "DKG is not in a valid state to deal PVSS shares",
            ),
            PvError::NotEnoughTranscripts => String::from_str(
                "Not enough PVSS transcripts received to aggregate",
            ),
            PvError::UnknownDealer => String::from_str("dkg received unknown dealer"),
            PvError::RepeatDealer(sender) => {
                let mut out = String::from_str("Repeat dealer ");
                let number = crate::error::decimal(*sender as u64);
                out.append(number.as_str());
                out
            },
            PvError::InvalidTranscript => String::from_str("Invalid PVSS transcript"),
            PvError::InsufficientShares => String::from_str(
                "Aggregation failed because the verified shares was insufficient",
            ),
            PvError::WrongFinalKey => String::from_str(
                "The final key was not correctly derived from the aggregated transcripts",
            ),
            PvError::AggregationMismatch => String::from_str(
                "aggregation does not match received PVSS instances",
            ),
            PvError::WrongStateToVerify => String::from_str(
                "DKG state machine is not in correct state to verify this message",
            ),
            PvError::WrongStateToApply => String::from_str(
                "DKG state machine is not in correct state to apply this message",
            ),
        }
    }
}

/// The block-driven session of one participant.
#[derive(Debug)]
pub struct PubliclyVerifiableDkg {
    pub params: Params,
    pub session_keypair: Keypair,
    pub validators: Vec<IndexedValidator>,
    /// The transcripts applied so far, by the position of their dealer.
    pub vss: IndexMap<PubliclyVerifiableSS>,
    /// The order of the evaluation domain.
    pub domain_size: usize,
    pub state: DkgState,
    /// The position of this participant among the validators.
    pub me: usize,
    /// The blocks between which this participant issues its transcript.
    pub window: (u32, u32),
}

/// The public keys of the validators in order.
pub open spec fn indexed_keys(validators: Seq<IndexedValidator>) -> Seq<Seq<u8>> {
    validators.map_values(|v: IndexedValidator| v.validator.public_key@)
}

/// The first position of an address among the validators, if it is there.
pub open spec fn position_of_address(addresses: Seq<Seq<char>>, address: Seq<char>, from: int) -> Option<
    int,
>
    decreases addresses.len() - from,
{
    if from < 0 || from >= addresses.len() {
        None
    } else if addresses[from] == address {
        Some(from)
    } else {
        position_of_address(addresses, address, from + 1)
    }
}

/// The addresses of a set of validators.
pub open spec fn set_addresses(validators: Seq<TendermintValidator>) -> Seq<Seq<char>> {
    validators.map_values(|v: TendermintValidator| v.address@)
}

/// The addresses of the validators of a session.
pub open spec fn session_addresses(validators: Seq<IndexedValidator>) -> Seq<Seq<char>> {
    validators.map_values(|v: IndexedValidator| v.validator.address@)
}

/// The start of the window of the participant at position `me`: the
/// multiple of `retry_after` at or below `2 * me`.
pub open spec fn window_start(me: nat, retry_after: nat) -> nat {
    retry_after * ((2 * me) / retry_after)
}

/// The error with which a session is refused, if it is:
/// `UnableToConstructDomain` where the machine cannot index the domain;
/// `ValidatorNotFound` where the participant's address is not in the set;
/// `UnableToConstructDomain` where the domain has fewer points than there
/// are validators, the retry interval is zero, or the participant's window
/// does not fit 32 bits.
pub open spec fn session_refusal(
    validators: Seq<TendermintValidator>,
    params: Params,
    me: TendermintValidator,
) -> Option<PvError> {
    if domain_size(params.shares_num as nat) > usize::MAX {
        Some(PvError::UnableToConstructDomain)
    } else {
        match position_of_address(set_addresses(validators), me.address@, 0) {
            None => Some(PvError::ValidatorNotFound),
            Some(position) => if validators.len() > domain_size(params.shares_num as nat)
                || params.retry_after == 0 || window_start(
                position as nat,
                params.retry_after as nat,
            ) + params.retry_after > u32::MAX {
                Some(PvError::UnableToConstructDomain)
            } else {
                None
            },
        }
    }
}

/// The sum of the first commitments of the first `n` transcripts, starting
/// from the identity.
pub open spec fn key_sum(transcripts: Seq<PubliclyVerifiableSS>, n: nat) -> Seq<u8>
    decreases n,
{
    if n == 0 {
        g1_identity()
    } else {
        g1_sum(key_sum(transcripts, (n - 1) as nat), transcripts[n - 1]@.coeffs[0])
    }
}

/// Whether every transcript holds a commitment.
pub open spec fn all_committed(transcripts: Seq<PubliclyVerifiableSS>) -> bool {
    forall|i: int| 0 <= i < transcripts.len() ==> (#[trigger] transcripts[i])@.coeffs.len() > 0
}

/// Whether the shares of the first `n` validators match the commitments.
pub open spec fn shares_match(
    commitments: Seq<Seq<u8>>,
    shares: Seq<Seq<u8>>,
    keys: Seq<Seq<u8>>,
    n: nat,
) -> bool {
    forall|i: int| 0 <= i < n ==> share_matches(#[trigger] commitments[i], shares[i], keys[i])
}

/// What the state and the answer are after one more block.
pub open spec fn after_block(state: DkgState, has_dealt: bool, window: (u32, u32)) -> (
    DkgState,
    PvssScheduler,
) {
    match state {
        DkgState::Sharing { accumulated_shares, block } => if has_dealt {
            (state, PvssScheduler::Wait)
        } else if window.0 + 1 == block + 1 {
            (
                DkgState::Sharing { accumulated_shares, block: (block + 1) as u32 },
                PvssScheduler::Issue,
            )
        } else if window.1 < block + 1 {
            (
                DkgState::Sharing { accumulated_shares, block: (window.0 + 1) as u32 },
                PvssScheduler::Issue,
            )
        } else {
            (
                DkgState::Sharing { accumulated_shares, block: (block + 1) as u32 },
                PvssScheduler::Wait,
            )
        },
        _ => (state, PvssScheduler::Wait),
    }
}

impl PubliclyVerifiableDkg {
    /// What the operations of the session rely on: the domain exists and
    /// has a point for every validator, the validators hold the share
    /// indices of their positions, and this participant is one of them.
    pub open spec fn wf(&self) -> bool {
        &&& domain_order(self.domain_size as nat)
        &&& self.validators@.len() <= self.domain_size
        &&& self.me < self.validators@.len()
        &&& forall|i: int|
            0 <= i < self.validators@.len() ==> (#[trigger] self.validators@[i]).share_index == i
    }

    /// What the check of an aggregate against the transcripts applied so
    /// far gives: `AggregationMismatch` where a validator's share does not
    /// match the commitment to it; `InvalidTranscript` where a transcript
    /// holds no commitment; `AggregationMismatch` where the first
    /// commitment is not the sum of the transcripts' first commitments;
    /// else the number of transcripts.
    pub open spec fn aggregation_verdict(&self, vss: TranscriptView) -> Result<u32, PvError> {
        if !shares_match(
            g1_fft(vss.coeffs, self.domain_size as nat),
            vss.shares,
            indexed_keys(self.validators@),
            crate::combine::shorter(self.validators@.len(), vss.shares.len()),
        ) {
            Err(PvError::AggregationMismatch)
        } else if !all_committed(self.vss.spec_values()) {
            Err(PvError::InvalidTranscript)
        } else if vss.coeffs.len() == 0 || vss.coeffs[0] != key_sum(
            self.vss.spec_values(),
            self.vss.spec_values().len(),
        ) {
            Err(PvError::AggregationMismatch)
        } else {
            Ok(crate::messages::clamped(self.vss.spec_values().len()))
        }
    }

    /// What the check of an aggregate message gives: the state must be
    /// `Dealt`, the threshold at most the number of shares, the aggregate
    /// must match the transcripts, as many transcripts must be there as the
    /// number of shares less the threshold, and the claimed key must be the
    /// sum of the transcripts' first commitments.
    pub open spec fn aggregate_message_verdict(&self, aggregation: Aggregation) -> Result<(), PvError> {
        if !(self.state is Dealt) {
            Err(PvError::WrongStateToVerify)
        } else if self.params.security_threshold > self.params.shares_num {
            Err(PvError::UnableToConstructDomain)
        } else {
            match self.aggregation_verdict(aggregation.vss@) {
                Err(e) => Err(e),
                Ok(count) => if count < self.params.shares_num - self.params.security_threshold {
                    Err(PvError::InsufficientShares)
                } else if aggregation.final_key@ != key_sum(
                    self.vss.spec_values(),
                    self.vss.spec_values().len(),
                ) {
                    Err(PvError::WrongFinalKey)
                } else {
                    Ok(())
                },
            }
        }
    }

    /// A session for the participant `me` among the validators of the set.
    pub fn new(validator_set: ValidatorSet, params: Params, me: TendermintValidator, session_keypair: Keypair) -> (out:
        Result<PubliclyVerifiableDkg, PvError>)
        ensures
            match out {
                Ok(dkg) => {
                    &&& dkg.wf()
                    &&& dkg.params == params
                    &&& dkg.domain_size == domain_size(params.shares_num as nat)
                    &&& position_of_address(set_addresses(validator_set.validators@), me.address@, 0)
                        == Some(dkg.me as int)
                    &&& session_addresses(dkg.validators@) == set_addresses(
                        validator_set.validators@,
                    )
                    &&& indexed_keys(dkg.validators@) == validator_set.validators@.map_values(
                        |v: TendermintValidator| v.public_key@,
                    )
                    &&& dkg.vss.spec_keys().len() == 0
                    &&& dkg.state == (DkgState::Sharing { accumulated_shares: 0, block: 0 })
                    &&& params.retry_after > 0
                    &&& dkg.window.0 == window_start(dkg.me as nat, params.retry_after as nat)
                    &&& dkg.window.1 == dkg.window.0 + params.retry_after
                },
                Err(e) => session_refusal(validator_set.validators@, params, me) == Some(e),
            },
            out is Ok <==> session_refusal(validator_set.validators@, params, me) is None,
    {
        let size = domain_size_for(params.shares_num);
        if size > usize::MAX as u64 {
            return Err(PvError::UnableToConstructDomain);
        }
        let size = size as usize;
        let ghost addresses = set_addresses(validator_set.validators@);
        let n = validator_set.validators.len();
        let mut found: Option<usize> = None;
        let mut i: usize = n;
        while i > 0
            invariant
                i <= n == validator_set.validators@.len(),
                addresses == set_addresses(validator_set.validators@),
                match found {
                    Some(p) => position_of_address(addresses, me.address@, i as int) == Some(
                        p as int,
                    ) && p < n,
                    None => position_of_address(addresses, me.address@, i as int) is None,
                },
            decreases i,
        {
            i -= 1;
            assert(addresses[i as int] == validator_set.validators@[i as int].address@);
            if validator_set.validators[i].address == me.address {
                found = Some(i);
            }
        }
        let me_position = match found {
            Some(p) => p,
            None => {
                return Err(PvError::ValidatorNotFound);
            },
        };
        if n > size || params.retry_after == 0 {
            return Err(PvError::UnableToConstructDomain);
        }
        let doubled: u64 = 2 * (me_position as u64);
        let retry = params.retry_after as u64;
        assert(retry * (doubled / retry) <= doubled) by (nonlinear_arith)
            requires
                retry > 0,
                doubled >= 0,
        ;
        let start: u64 = retry * (doubled / retry);
        if start + retry > u32::MAX as u64 {
            return Err(PvError::UnableToConstructDomain);
        }
        let mut validators: Vec<IndexedValidator> = Vec::new();
        let mut k: usize = 0;
        while k < n
            invariant
                k <= n == validator_set.validators@.len(),
                validators@.len() == k,
                forall|j: int| 0 <= j < k ==> (#[trigger] validators@[j]).share_index == j,
                forall|j: int|
                    0 <= j < k ==> (#[trigger] validators@[j]).validator.address@
                        == validator_set.validators@[j].address@ && validators@[j].validator.public_key@
                        == validator_set.validators@[j].public_key@,
            decreases n - k,
        {
            validators.push(
                IndexedValidator { validator: validator_set.validators[k].clone(), share_index: k },
            );
            k += 1;
        }
        assert(session_addresses(validators@) =~= set_addresses(validator_set.validators@));
        assert(indexed_keys(validators@) =~= validator_set.validators@.map_values(
            |v: TendermintValidator| v.public_key@,
        ));
        Ok(
            PubliclyVerifiableDkg {
                session_keypair,
                params,
                vss: IndexMap::new(),
                domain_size: size,
                state: DkgState::Sharing { accumulated_shares: 0, block: 0 },
                me: me_position,
                validators,
                window: (start as u32, (start + retry) as u32),
            },
        )
    }

    /// Counts one more block. While transcripts are dealt and this
    /// participant's is not among them, it says to issue the transcript at
    /// the first block of the window, and again whenever the window has
    /// passed, which sets the count back to the window's first block.
    pub fn increase_block(&mut self) -> (out: PvssScheduler)
        requires
            old(self).me <= u32::MAX,
            old(self).window.0 < u32::MAX,
            old(self).state matches DkgState::Sharing { block, .. } ==> block < u32::MAX,
        ensures
            (final(self).state, out) == after_block(
                old(self).state,
                old(self).vss.has(old(self).me as u32),
                old(self).window,
            ),
            final(self).params == old(self).params,
            final(self).validators == old(self).validators,
            final(self).vss == old(self).vss,
            final(self).domain_size == old(self).domain_size,
            final(self).me == old(self).me,
            final(self).window == old(self).window,
            final(self).session_keypair == old(self).session_keypair,
    {
        let has_dealt = self.vss.position(self.me as u32).is_some();
        if has_dealt {
            return PvssScheduler::Wait;
        }
        let (accumulated_shares, block) = match &self.state {
            DkgState::Sharing { accumulated_shares, block } => (*accumulated_shares, *block),
            _ => {
                return PvssScheduler::Wait;
            },
        };
        let next = block + 1;
        if self.window.0 + 1 == next {
            self.state = DkgState::Sharing { accumulated_shares, block: next };
            PvssScheduler::Issue
        } else if self.window.1 < next {
            self.state = DkgState::Sharing { accumulated_shares, block: self.window.0 + 1 };
            PvssScheduler::Issue
        } else {
            self.state = DkgState::Sharing { accumulated_shares, block: next };
            PvssScheduler::Wait
        }
    }

    /// The domain points of the validators, in order.
    fn validator_points(&self) -> (out: Vec<Scalar>)
        requires
            self.wf(),
        ensures
            scalar_views(out@) == domain_points(self.domain_size as nat, self.validators@.len()),
            out@.len() == self.validators@.len(),
    {
        domain_elements(self.domain_size, self.validators.len())
    }

    /// Deals the polynomial `phi` to the validators of the session.
    pub fn deal(&self, phi: &[Scalar]) -> (out: PubliclyVerifiableSS)
        requires
            self.wf(),
            phi@.len() > 0,
        ensures
            out@ == dealt_transcript(
                scalar_views(phi@),
                indexed_keys(self.validators@),
                domain_points(self.domain_size as nat, self.validators@.len()),
            ),
    {
        let points = self.validator_points();
        let ghost values = scalar_views(phi@);
        let ghost keys = indexed_keys(self.validators@);
        let ghost xs = domain_points(self.domain_size as nat, self.validators@.len());
        let g = G1Point::generator();
        let mut coeffs: Vec<G1Point> = Vec::new();
        let mut k: usize = 0;
        while k < phi.len()
            invariant
                k <= phi@.len(),
                coeffs@.len() == k,
                values == scalar_views(phi@),
                g@ == crate::curve::g1_generator(),
                forall|j: int|
                    0 <= j < k ==> (#[trigger] coeffs@[j])@ == crate::curve::g1_scaled(
                        crate::curve::g1_generator(),
                        values[j],
                    ),
            decreases phi@.len() - k,
        {
            assert(values[k as int] == phi@[k as int]@);
            coeffs.push(g.mul(&phi[k]));
            k += 1;
        }
        let mut shares: Vec<G2Point> = Vec::new();
        let mut i: usize = 0;
        while i < self.validators.len()
            invariant
                i <= self.validators@.len(),
                shares@.len() == i,
                points@.len() == self.validators@.len(),
                values == scalar_views(phi@),
                keys == indexed_keys(self.validators@),
                xs == scalar_views(points@),
                forall|j: int|
                    0 <= j < i ==> (#[trigger] shares@[j])@ == crate::curve::g2_scaled(
                        keys[j],
                        poly_eval(values, xs[j]),
                    ),
            decreases self.validators@.len() - i,
        {
            let eval = evaluate_polynomial(phi, &points[i]);
            assert(xs[i as int] == points@[i as int]@);
            assert(keys[i as int] == self.validators@[i as int].validator.public_key@);
            shares.push(self.validators[i].validator.public_key.encryption_key.mul(&eval));
            eval.zeroize();
            i += 1;
        }
        assert(values[0] == phi@[0]@);
        let sigma = G2Point::generator().mul(&phi[0]);
        let out = PubliclyVerifiableSS::from_parts(coeffs, shares, sigma);
        assert(out@.coeffs =~= dealt_transcript(values, keys, xs).coeffs);
        assert(out@.shares =~= dealt_transcript(values, keys, xs).shares);
        out
    }

    /// A message that deals a fresh secret, with a polynomial drawn from
    /// `rng` whose degree is the number of shares less the threshold.
    /// Refused unless transcripts are being dealt or are dealt.
    pub fn share(&self, rng: &mut StdRng) -> (out: Result<Message, PvError>)
        requires
            self.wf(),
        ensures
            match out {
                Ok(message) => {
                    &&& self.state is Sharing || self.state is Dealt
                    &&& self.params.security_threshold <= self.params.shares_num
                    &&& message matches Message::Deal(t) && exists|phi: Seq<nat>| #[trigger]
                        deals_secret(
                            t@,
                            phi,
                            phi[0],
                            (self.params.shares_num - self.params.security_threshold + 1) as nat,
                            indexed_keys(self.validators@),
                            domain_points(self.domain_size as nat, self.validators@.len()),
                        )
                },
                Err(e) => if self.params.security_threshold > self.params.shares_num {
                    e == PvError::UnableToConstructDomain
                } else {
                    e == PvError::NotInDealingState && !(self.state is Sharing || self.state is Dealt)
                },
            },
    {
        if self.params.security_threshold > self.params.shares_num {
            return Err(PvError::UnableToConstructDomain);
        }
        let dealing = match &self.state {
            DkgState::Sharing { .. } => true,
            DkgState::Dealt => true,
            _ => false,
        };
        if !dealing {
            return Err(PvError::NotInDealingState);
        }
        let secret = Scalar::random(rng);
        let phi = random_polynomial_with_secret(
            &secret,
            self.params.shares_num - self.params.security_threshold,
            rng,
        );
        let vss = self.deal(phi.as_slice());
        proof {
            assert(scalar_views(phi@).len() == phi@.len());
            assert(deals_secret(
                vss@,
                scalar_views(phi@),
                scalar_views(phi@)[0],
                (self.params.shares_num - self.params.security_threshold + 1) as nat,
                indexed_keys(self.validators@),
                domain_points(self.domain_size as nat, self.validators@.len()),
            ));
        }
        secret.zeroize();
        zeroize_polynomial(phi);
        Ok(Message::Deal(vss))
    }

    /// The transcripts applied so far, in the order of their dealers.
    fn transcripts(&self) -> (out: Vec<PubliclyVerifiableSS>)
        ensures
            transcript_views(out@) == transcript_views(self.vss.spec_values()),
            out@.len() == self.vss.spec_values().len(),
    {
        let n = self.vss.len();
        let mut out: Vec<PubliclyVerifiableSS> = Vec::new();
        let mut i: usize = 0;
        while i < n
            invariant
                i <= n == self.vss.spec_keys().len(),
                self.vss.ordered(),
                out@.len() == i,
                forall|k: int| 0 <= k < i ==> (#[trigger] out@[k])@ == self.vss.spec_values()[k]@,
            decreases n - i,
        {
            out.push(self.vss.value_at(i).clone());
            i += 1;
        }
        assert(transcript_views(out@) =~= transcript_views(self.vss.spec_values()));
        out
    }

    /// The key that the transcripts applied so far give: the sum of their
    /// first commitments. `InvalidTranscript` where one holds no
    /// commitment.
    pub fn final_key(&self) -> (out: Result<G1Point, PvError>)
        ensures
            match out {
                Ok(key) => all_committed(self.vss.spec_values()) && key@ == key_sum(
                    self.vss.spec_values(),
                    self.vss.spec_values().len(),
                ),
                Err(e) => e == PvError::InvalidTranscript && !all_committed(self.vss.spec_values()),
            },
    {
        let n = self.vss.len();
        let ghost transcripts = self.vss.spec_values();
        let mut key = G1Point::identity();
        let mut i: usize = 0;
        while i < n
            invariant
                i <= n == transcripts.len(),
                transcripts == self.vss.spec_values(),
                self.vss.ordered(),
                forall|k: int| 0 <= k < i ==> (#[trigger] transcripts[k])@.coeffs.len() > 0,
                key@ == key_sum(transcripts, i as nat),
            decreases n - i,
        {
            let t = self.vss.value_at(i);
            if t.coeffs.len() == 0 {
                assert(transcripts[i as int]@.coeffs.len() == 0);
                return Err(PvError::InvalidTranscript);
            }
            assert(t@.coeffs[0] == t.coeffs@[0]@);
            key = key.add(&t.coeffs[0]);
            i += 1;
        }
        Ok(key)
    }

    /// A message with the aggregate of the transcripts applied so far and
    /// the key they give. Refused unless the transcripts are dealt.
    pub fn aggregate(&self) -> (out: Result<Message, PvError>)
        ensures
            match out {
                Ok(message) => {
                    &&& self.state is Dealt
                    &&& self.vss.spec_values().len() > 0
                    &&& same_shape(transcript_views(self.vss.spec_values()))
                    &&& all_committed(self.vss.spec_values())
                    &&& message matches Message::Aggregate(a) && a.vss@ == aggregate_of(
                        transcript_views(self.vss.spec_values()),
                    ) && a.final_key@ == key_sum(
                        self.vss.spec_values(),
                        self.vss.spec_values().len(),
                    )
                },
                Err(e) => if !(self.state is Dealt) {
                    e == PvError::NotEnoughTranscripts
                } else {
                    e == PvError::InvalidTranscript && !(self.vss.spec_values().len() > 0
                        && same_shape(transcript_views(self.vss.spec_values())) && all_committed(
                        self.vss.spec_values(),
                    ))
                },
            },
    {
        match &self.state {
            DkgState::Dealt => {},
            _ => {
                return Err(PvError::NotEnoughTranscripts);
            },
        }
        let final_key = match self.final_key() {
            Ok(key) => key,
            Err(e) => {
                return Err(e);
            },
        };
        let transcripts = self.transcripts();
        let ghost ts = transcript_views(self.vss.spec_values());
        if transcripts.len() == 0 {
            return Err(PvError::InvalidTranscript);
        }
        let mut i: usize = 1;
        while i < transcripts.len()
            invariant
                1 <= i <= transcripts@.len(),
                ts == transcript_views(transcripts@),
                ts == transcript_views(self.vss.spec_values()),
                self.state is Dealt,
                forall|j: int|
                    0 <= j < i ==> (#[trigger] ts[j]).coeffs.len() == ts[0].coeffs.len()
                        && ts[j].shares.len() == ts[0].shares.len(),
            decreases transcripts@.len() - i,
        {
            assert(ts[i as int] == transcripts@[i as int]@);
            assert(ts[0] == transcripts@[0]@);
            if transcripts[i].coeffs.len() != transcripts[0].coeffs.len()
                || transcripts[i].shares.len() != transcripts[0].shares.len() {
                assert(!same_shape(ts));
                return Err(PvError::InvalidTranscript);
            }
            i += 1;
        }
        match aggregate(transcripts.as_slice()) {
            Ok(vss) => Ok(Message::Aggregate(Aggregation { vss, final_key })),
            Err(_) => Err(PvError::InvalidTranscript),
        }
    }

    /// The position of the first validator with the address of `sender`.
    pub fn position_of(&self, sender: &TendermintValidator) -> (out: Option<usize>)
        ensures
            match out {
                Some(p) => p < self.validators@.len() && position_of_address(
                    session_addresses(self.validators@),
                    sender.address@,
                    0,
                ) == Some(p as int),
                None => position_of_address(
                    session_addresses(self.validators@),
                    sender.address@,
                    0,
                ) is None,
            },
    {
        let ghost addresses = session_addresses(self.validators@);
        let n = self.validators.len();
        let mut found: Option<usize> = None;
        let mut i: usize = n;
        while i > 0
            invariant
                i <= n == self.validators@.len(),
                addresses == session_addresses(self.validators@),
                match found {
                    Some(p) => position_of_address(addresses, sender.address@, i as int) == Some(
                        p as int,
                    ) && p < n,
                    None => position_of_address(addresses, sender.address@, i as int) is None,
                },
            decreases i,
        {
            i -= 1;
            assert(addresses[i as int] == self.validators@[i as int].validator.address@);
            if self.validators[i].validator.address == sender.address {
                found = Some(i);
            }
        }
        found
    }

    /// The number of transcripts that an aggregate sums, where it is the
    /// aggregate of the transcripts applied so far: its shares match the
    /// commitments for every validator, and its first commitment is the sum
    /// of the transcripts' first commitments. Else `AggregationMismatch`.
    pub fn verify_aggregation(&self, vss: &AggregatedPvss) -> (out: Result<u32, PvError>)
        requires
            self.wf(),
        ensures
            out == self.aggregation_verdict(vss@),
    {
        let commitments = evaluate_over_domain(&vss.coeffs, self.domain_size);
        let n = if self.validators.len() <= vss.shares.len() {
            self.validators.len()
        } else {
            vss.shares.len()
        };
        let ghost keys = indexed_keys(self.validators@);
        let g = G1Point::generator();
        let mut i: usize = 0;
        while i < n
            invariant
                i <= n,
                n <= self.validators@.len(),
                n <= vss.shares@.len(),
                self.validators@.len() <= commitments@.len(),
                keys == indexed_keys(self.validators@),
                g@ == crate::curve::g1_generator(),
                g1_views(commitments@) == g1_fft(vss@.coeffs, self.domain_size as nat),
                n == crate::combine::shorter(self.validators@.len(), vss@.shares.len()),
                shares_match(g1_views(commitments@), vss@.shares, keys, i as nat),
            decreases n - i,
        {
            assert(keys[i as int] == self.validators@[i as int].validator.public_key@);
            assert(g1_views(commitments@)[i as int] == commitments@[i as int]@);
            assert(vss@.shares[i as int] == vss.shares@[i as int]@);
            let left = pairing(&g, &vss.shares[i]);
            let right = pairing(
                &commitments[i],
                &self.validators[i].validator.public_key.encryption_key,
            );
            if !left.equals(&right) {
                assert(!share_matches(g1_views(commitments@)[i as int], vss@.shares[i as int], keys[i as int]));
                return Err(PvError::AggregationMismatch);
            }
            i += 1;
        }
        let key = match self.final_key() {
            Ok(key) => key,
            Err(e) => {
                return Err(e);
            },
        };
        if vss.coeffs.len() == 0 {
            return Err(PvError::AggregationMismatch);
        }
        assert(vss@.coeffs[0] == vss.coeffs@[0]@);
        if key.equals(&vss.coeffs[0]) {
            Ok(crate::messages::clamp(self.vss.len()))
        } else {
            Err(PvError::AggregationMismatch)
        }
    }

    /// Checks a message of a block proposal against the state of the
    /// session, which it leaves as it is.
    pub fn verify_message(&self, sender: &TendermintValidator, payload: &Message) -> (out: Result<(), PvError>)
        requires
            self.wf(),
        ensures
            match payload {
                Message::Deal(pvss) => if !(self.state is Sharing || self.state is Dealt) {
                    out == Err::<(), PvError>(PvError::WrongStateToVerify)
                } else {
                    match position_of_address(
                        session_addresses(self.validators@),
                        sender.address@,
                        0,
                    ) {
                        None => out == Err::<(), PvError>(PvError::UnknownDealer),
                        Some(p) => if p <= u32::MAX && self.vss.has(p as u32) {
                            out == Err::<(), PvError>(PvError::RepeatDealer(p as u32))
                        } else if !proof_of_knowledge_holds(pvss@) {
                            out == Err::<(), PvError>(PvError::InvalidTranscript)
                        } else {
                            out is Ok
                        },
                    }
                },
                Message::Aggregate(aggregation) => out == self.aggregate_message_verdict(
                    *aggregation,
                ),
            },
    {
        match payload {
            Message::Deal(pvss) => {
                let dealing = match &self.state {
                    DkgState::Sharing { .. } => true,
                    DkgState::Dealt => true,
                    _ => false,
                };
                if !dealing {
                    return Err(PvError::WrongStateToVerify);
                }
                let position = match self.position_of(sender) {
                    Some(p) => p,
                    None => {
                        return Err(PvError::UnknownDealer);
                    },
                };
                if position <= u32::MAX as usize && self.vss.position(position as u32).is_some() {
                    Err(PvError::RepeatDealer(position as u32))
                } else if !pvss.verify_optimistic() {
                    Err(PvError::InvalidTranscript)
                } else {
                    Ok(())
                }
            },
            Message::Aggregate(aggregation) => {
                match &self.state {
                    DkgState::Dealt => {},
                    _ => {
                        return Err(PvError::WrongStateToVerify);
                    },
                }
                if self.params.security_threshold > self.params.shares_num {
                    return Err(PvError::UnableToConstructDomain);
                }
                let minimum_shares = self.params.shares_num - self.params.security_threshold;
                let verified_shares = match self.verify_aggregation(&aggregation.vss) {
                    Ok(count) => count,
                    Err(e) => {
                        return Err(e);
                    },
                };
                if verified_shares < minimum_shares {
                    return Err(PvError::InsufficientShares);
                }
                let key = match self.final_key() {
                    Ok(key) => key,
                    Err(e) => {
                        return Err(e);
                    },
                };
                if key.equals(&aggregation.final_key) {
                    Ok(())
                } else {
                    Err(PvError::WrongFinalKey)
                }
            },
        }
    }

    /// Applies a message that the chain has agreed on: a transcript is
    /// stored under its dealer's position, and the session goes on to
    /// `Dealt` once as many are counted as the number of shares less the
    /// threshold; an aggregate ends the session with the final key.
    pub fn apply_message(&mut self, sender: TendermintValidator, payload: Message) -> (out: Result<
        (),
        PvError,
    >)
        requires
            old(self).wf(),
            old(self).state matches DkgState::Sharing { accumulated_shares, .. }
                ==> accumulated_shares < u32::MAX,
        ensures
            final(self).wf(),
            final(self).params == old(self).params,
            final(self).validators == old(self).validators,
            final(self).domain_size == old(self).domain_size,
            final(self).me == old(self).me,
            final(self).window == old(self).window,
            out is Err ==> final(self).state == old(self).state && final(self).vss == old(self).vss,
            match payload {
                Message::Deal(pvss) => if !(old(self).state is Sharing || old(self).state is Dealt) {
                    out == Err::<(), PvError>(PvError::WrongStateToApply)
                } else {
                    match position_of_address(
                        session_addresses(old(self).validators@),
                        sender.address@,
                        0,
                    ) {
                        None => out == Err::<(), PvError>(PvError::UnknownDealer),
                        Some(p) => {
                            &&& out is Ok
                            &&& final(self).vss.has(p as u32)
                            &&& final(self).vss.value_of(p as u32) == pvss
                            &&& forall|x: u32|
                                #[trigger] final(self).vss.has(x) <==> (old(self).vss.has(x) || x
                                    == p)
                            &&& match old(self).state {
                                DkgState::Sharing { accumulated_shares, block } => if
                                    old(self).params.security_threshold
                                    > old(self).params.shares_num || accumulated_shares + 1
                                    >= old(self).params.shares_num
                                    - old(self).params.security_threshold {
                                    final(self).state == DkgState::Dealt
                                } else {
                                    final(self).state == (DkgState::Sharing {
                                        accumulated_shares: (accumulated_shares + 1) as u32,
                                        block,
                                    })
                                },
                                _ => final(self).state == old(self).state,
                            }
                        },
                    }
                },
                Message::Aggregate(_) => if !(old(self).state is Dealt) {
                    out == Err::<(), PvError>(PvError::WrongStateToApply)
                } else {
                    match out {
                        Ok(_) => {
                            &&& final(self).vss == old(self).vss
                            &&& all_committed(old(self).vss.spec_values())
                            &&& final(self).state matches DkgState::Success { final_key }
                            &&& final_key@ == key_sum(
                                old(self).vss.spec_values(),
                                old(self).vss.spec_values().len(),
                            )
                        },
                        Err(e) => e == PvError::InvalidTranscript && !all_committed(
                            old(self).vss.spec_values(),
                        ),
                    }
                },
            },
    {
        match payload {
            Message::Deal(pvss) => {
                let dealing = match &self.state {
                    DkgState::Sharing { .. } => true,
                    DkgState::Dealt => true,
                    _ => false,
                };
                if !dealing {
                    return Err(PvError::WrongStateToApply);
                }
                let position = match self.position_of(&sender) {
                    Some(p) => p,
                    None => {
                        return Err(PvError::UnknownDealer);
                    },
                };
                proof {
                    crate::domain::lemma_domain_order_bound(self.domain_size as nat);
                }
                let mut vss = IndexMap::new();
                core::mem::swap(&mut vss, &mut self.vss);
                self.vss = vss.insert(position as u32, pvss);
                let next = match &self.state {
                    DkgState::Sharing { accumulated_shares, block } => {
                        let accumulated = *accumulated_shares + 1;
                        if self.params.security_threshold > self.params.shares_num || accumulated
                            >= self.params.shares_num - self.params.security_threshold {
                            Some(DkgState::Dealt)
                        } else {
                            Some(DkgState::Sharing { accumulated_shares: accumulated, block: *block })
                        }
                    },
                    _ => None,
                };
                match next {
                    Some(state) => {
                        self.state = state;
                    },
                    None => {},
                }
                Ok(())
            },
            Message::Aggregate(_) => {
                match &self.state {
                    DkgState::Dealt => {},
                    _ => {
                        return Err(PvError::WrongStateToApply);
                    },
                }
                match self.final_key() {
                    Ok(final_key) => {
                        self.state = DkgState::Success { final_key };
                        Ok(())
                    },
                    Err(e) => Err(e),
                }
            },
        }
    }
}

} // verus!
