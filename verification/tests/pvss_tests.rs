use ferveo::curve::{G1Point, G2Point};
use ferveo::dkg::{DkgParams, PubliclyVerifiableDkg};
use ferveo::error::Error;
use ferveo::messages::ValidatorMessage;
use ferveo::pvss::{
    aggregate, do_verify_full, get_share_commitments_from_poly_commitments, verify_validator_share,
    AggregatedTranscript, PubliclyVerifiableSS,
};
use ferveo::scalar::Scalar;
use ferveo::validator::{EthereumAddress, Keypair, Validator};
use rand::rngs::StdRng;
use rand::SeedableRng;

const TAU: u32 = 0;
const SECURITY_THRESHOLD: u32 = 3;
const SHARES_NUM: u32 = 4;
const VALIDATORS_NUM: u32 = SHARES_NUM;
const MSG: &[u8] = b"my-msg";
const AAD: &[u8] = b"my-aad";

fn test_rng() -> StdRng {
    StdRng::seed_from_u64(0x5eed)
}

fn gen_keypairs(n: u32) -> Vec<Keypair> {
    let mut rng = test_rng();
    (0..n).map(|_| Keypair::new(&mut rng)).collect()
}

fn gen_address(i: usize) -> EthereumAddress {
    EthereumAddress::from_str(&format!("0x{i:040}")).unwrap()
}

fn gen_validators(keypairs: &[Keypair]) -> Vec<Validator> {
    keypairs
        .iter()
        .enumerate()
        .map(|(i, keypair)| Validator {
            address: gen_address(i),
            public_key: keypair.public_key(),
            share_index: i as u32,
        })
        .collect()
}

fn setup_dkg_for_n_validators(
    security_threshold: u32,
    shares_num: u32,
    my_validator_index: usize,
) -> (PubliclyVerifiableDkg, Vec<Keypair>) {
    let keypairs = gen_keypairs(shares_num);
    let validators = gen_validators(&keypairs);
    let me = validators[my_validator_index].clone();
    let dkg = PubliclyVerifiableDkg::new(
        &validators,
        &DkgParams::new(TAU, security_threshold, shares_num).unwrap(),
        &me,
    )
    .expect("Setup failed");
    (dkg, keypairs)
}

fn setup_dkg(my_validator_index: usize) -> (PubliclyVerifiableDkg, Vec<Keypair>) {
    setup_dkg_for_n_validators(SECURITY_THRESHOLD, SHARES_NUM, my_validator_index)
}

fn make_messages(rng: &mut StdRng, dkg: &PubliclyVerifiableDkg) -> Vec<ValidatorMessage> {
    let mut messages = vec![];
    for i in 0..dkg.validators().len() {
        let (dkg, _) = setup_dkg_for_n_validators(
            dkg.dkg_params().security_threshold(),
            dkg.dkg_params().shares_num(),
            i,
        );
        let sender = dkg.me().clone();
        let transcript = dkg.generate_transcript(rng).unwrap();
        messages.push((sender, transcript));
    }
    messages
}

fn setup_dealt_dkg_with_n_validators(
    security_threshold: u32,
    shares_num: u32,
    _validators_num: u32,
) -> (PubliclyVerifiableDkg, Vec<Keypair>, Vec<ValidatorMessage>) {
    let rng = &mut test_rng();
    let (dkg, keypairs) = setup_dkg_for_n_validators(security_threshold, shares_num, 0);
    let messages = make_messages(rng, &dkg);
    (dkg, keypairs, messages)
}

fn setup_dealt_dkg_with_n_transcript_dealt(
    security_threshold: u32,
    shares_num: u32,
    validators_num: u32,
    transcripts_to_use: u32,
) -> (PubliclyVerifiableDkg, Vec<Keypair>, Vec<ValidatorMessage>) {
    let (dkg, keypairs, messages) =
        setup_dealt_dkg_with_n_validators(security_threshold, shares_num, validators_num);
    let messages = messages.into_iter().take(transcripts_to_use as usize).collect();
    (dkg, keypairs, messages)
}

fn setup_dealt_dkg() -> (PubliclyVerifiableDkg, Vec<Keypair>, Vec<ValidatorMessage>) {
    setup_dealt_dkg_with_n_validators(SECURITY_THRESHOLD, SHARES_NUM, VALIDATORS_NUM)
}

fn transcripts_of(messages: &[ValidatorMessage]) -> Vec<PubliclyVerifiableSS> {
    messages.iter().map(|(_, t)| t.clone()).collect()
}

fn nonzero_scalar(rng: &mut StdRng) -> Scalar {
    let mut s = Scalar::random(rng);
    while s.is_zero() {
        s = Scalar::random(rng);
    }
    s
}

fn check_new_pvss(shares_num: u32, security_threshold: u32) {
    let rng = &mut test_rng();
    let (dkg, _, _) = setup_dealt_dkg_with_n_transcript_dealt(security_threshold, shares_num, shares_num, 0);
    let s = Scalar::random(rng);
    let pvss = PubliclyVerifiableSS::<ferveo::pvss::Unaggregated>::new(&s, &dkg, rng)
        .expect("Test failed");
    // Check that the chosen secret coefficient is correct
    assert_eq!(pvss.coeffs[0], G1Point::generator().mul(&s));
    // Check that a polynomial of the correct degree was created
    assert_eq!(pvss.coeffs.len(), dkg.dkg_params().security_threshold() as usize);
    // Check that the correct number of shares were created
    assert_eq!(pvss.shares.len(), dkg.validators().len());
    // Check that the proof of knowledge is correct
    assert_eq!(pvss.sigma, G2Point::generator().mul(&s));
    // Check that the optimistic verify returns true
    assert!(pvss.verify_optimistic());
    // Check that the full verify returns true
    assert!(pvss.verify_full(&dkg).unwrap());
}

#[test]
fn test_new_pvss() {
    check_new_pvss(4, 3);
    check_new_pvss(4, 4);
    check_new_pvss(6, 4);
}

#[test]
fn dealing_a_polynomial_is_exact() {
    let (dkg, _) = setup_dkg(0);
    let s = |n: u8| {
        let mut bytes = vec![0u8; 32];
        bytes[0] = n;
        Scalar::from_bytes(&bytes).unwrap()
    };
    let phi = vec![s(7), s(1), s(2)];
    let pvss = PubliclyVerifiableSS::<ferveo::pvss::Unaggregated>::deal(&phi, &dkg).unwrap();
    let g = G1Point::generator();
    assert_eq!(pvss.coeffs, vec![g.mul(&s(7)), g.mul(&s(1)), g.mul(&s(2))]);
    assert_eq!(pvss.sigma, G2Point::generator().mul(&s(7)));
    let points = dkg.domain_points();
    // the first domain point is one: the share is the key times 7 + 1 + 2
    assert!(points[0].equals(&Scalar::one()));
    assert_eq!(pvss.shares[0], dkg.validators()[0].public_key.encryption_key.mul(&s(10)));
    for (i, v) in dkg.validators().iter().enumerate() {
        let y = ferveo::poly::evaluate_polynomial(&phi, &points[i]);
        assert_eq!(pvss.shares[i], v.public_key.encryption_key.mul(&y));
    }
    assert!(pvss.verify_full(&dkg).unwrap());
}

#[test]
fn pvss_test_aggregate_wont_verify_if_under_threshold() {
    let (dkg, _, messages) = setup_dealt_dkg_with_n_transcript_dealt(
        SECURITY_THRESHOLD,
        SHARES_NUM,
        VALIDATORS_NUM,
        SECURITY_THRESHOLD - 1,
    );
    let pvss_list = transcripts_of(&messages);
    let aggregate = aggregate(&pvss_list).unwrap();
    assert!(aggregate.verify_aggregation(&dkg, &pvss_list).unwrap());
}

#[test]
fn pvss_test_verify_pvss_wrong_proof_of_knowledge() {
    let rng = &mut test_rng();
    let (dkg, _) = setup_dkg(0);
    let s = nonzero_scalar(rng);
    let mut pvss = PubliclyVerifiableSS::<ferveo::pvss::Unaggregated>::new(&s, &dkg, rng)
        .expect("Test failed");
    pvss.sigma = G2Point::identity();
    assert!(!pvss.verify_optimistic());
    assert_eq!(pvss.verify_full(&dkg), Ok(false));
}

#[test]
fn pvss_test_verify_pvss_bad_shares() {
    let rng = &mut test_rng();
    let (dkg, _) = setup_dkg(0);
    let s = Scalar::random(rng);
    let pvss = PubliclyVerifiableSS::<ferveo::pvss::Unaggregated>::new(&s, &dkg, rng).unwrap();

    // So far, everything works
    assert!(pvss.verify_optimistic());
    assert!(pvss.verify_full(&dkg).unwrap());

    // Now, we're going to tamper with the PVSS shares
    let mut bad_pvss = pvss;
    bad_pvss.shares[0] = G2Point::identity();

    // Optimistic verification should not catch this issue
    assert!(bad_pvss.verify_optimistic());
    // Full verification should catch this issue
    assert!(!bad_pvss.verify_full(&dkg).unwrap());
}

fn check_aggregate_pvss(shares_num: u32, security_threshold: u32) {
    let (dkg, _, messages) =
        setup_dealt_dkg_with_n_validators(security_threshold, shares_num, shares_num);
    let pvss_list = transcripts_of(&messages);
    let aggregate = aggregate(&pvss_list).unwrap();
    // Check that a polynomial of the correct degree was created
    assert_eq!(aggregate.coeffs.len(), dkg.dkg_params().security_threshold() as usize);
    // Check that the correct number of shares were created
    assert_eq!(aggregate.shares.len(), dkg.validators().len());
    // Check that the optimistic verify returns true
    assert!(aggregate.verify_optimistic());
    // Check that the full verify returns true
    assert!(aggregate.verify_full(&dkg).unwrap());
    // Check that the verification of aggregation passes
    assert!(aggregate.verify_aggregation(&dkg, &pvss_list).expect("Test failed"));
}

#[test]
fn test_aggregate_pvss() {
    check_aggregate_pvss(4, 3);
    check_aggregate_pvss(4, 4);
    check_aggregate_pvss(5, 3);
}

#[test]
fn aggregation_sums_position_by_position() {
    let (_, _, messages) = setup_dealt_dkg();
    let ts = transcripts_of(&messages);
    let agg = aggregate(&ts).unwrap();
    for k in 0..agg.coeffs.len() {
        let mut sum = ts[0].coeffs[k].clone();
        for t in &ts[1..] {
            sum = sum.add(&t.coeffs[k]);
        }
        assert_eq!(agg.coeffs[k], sum);
    }
    for i in 0..agg.shares.len() {
        let mut sum = ts[0].shares[i].clone();
        for t in &ts[1..] {
            sum = sum.add(&t.shares[i]);
        }
        assert_eq!(agg.shares[i], sum);
    }
    let mut sigma = ts[0].sigma.clone();
    for t in &ts[1..] {
        sigma = sigma.add(&t.sigma);
    }
    assert_eq!(agg.sigma, sigma);
    let with_key = AggregatedTranscript::from_transcripts(&ts).unwrap();
    assert_eq!(with_key.public_key.0, agg.coeffs[0]);
    // the aggregate does not depend on the order or the grouping of its inputs
    let mut reversed = ts.clone();
    reversed.reverse();
    let agg_reversed = aggregate(&reversed).unwrap();
    assert_eq!(agg.to_bytes().unwrap(), agg_reversed.to_bytes().unwrap());
    let head = aggregate(&ts[..2]).unwrap();
    let head = PubliclyVerifiableSS::from_parts(head.coeffs, head.shares, head.sigma);
    let mut regrouped = vec![head];
    regrouped.extend_from_slice(&ts[2..]);
    assert_eq!(agg.to_bytes().unwrap(), aggregate(&regrouped).unwrap().to_bytes().unwrap());
    assert_eq!(aggregate(&[]), Err(Error::NoTranscriptsToAggregate));
}

#[test]
fn pvss_test_verify_aggregation_fails_if_constant_term_wrong() {
    let (dkg, _, messages) = setup_dealt_dkg();
    let pvss_list = transcripts_of(&messages);
    let mut aggregated = aggregate(&pvss_list).unwrap();
    assert_ne!(aggregated.coeffs[0], G1Point::identity());
    aggregated.coeffs[0] = G1Point::identity();
    assert_eq!(
        aggregated.verify_aggregation(&dkg, &pvss_list).expect_err("Test failed").to_string(),
        "Transcript aggregate doesn't match the received PVSS instances"
    )
}

#[test]
fn full_verification_names_its_errors() {
    let (dkg, keypairs, messages) = setup_dealt_dkg();
    let t = &messages[0].1;
    let mut validators = gen_validators(&keypairs);
    let size = dkg.domain_size();
    assert_eq!(do_verify_full(&t.coeffs, &t.shares, &validators, size), Ok(true));
    // a repeated share index is refused before anything else
    validators[2].share_index = 1;
    assert_eq!(
        do_verify_full(&t.coeffs, &t.shares, &validators, size),
        Err(Error::DuplicatedShareIndex(1))
    );
    // an index without a share
    validators[2].share_index = 9;
    assert_eq!(
        do_verify_full(&t.coeffs, &t.shares, &validators, size),
        Err(Error::InvalidShareIndex(9))
    );
    let commitments = get_share_commitments_from_poly_commitments(&t.coeffs, size);
    assert_eq!(commitments.len(), 4);
    assert_eq!(
        verify_validator_share(&commitments, &t.shares, 1, &validators[1].public_key),
        Ok(true)
    );
    assert_eq!(
        verify_validator_share(&commitments, &t.shares, 1, &validators[0].public_key),
        Ok(false)
    );
    assert_eq!(
        verify_validator_share(&commitments, &t.shares, 4, &validators[0].public_key),
        Err(Error::InvalidShareIndex(4))
    );
    // the commitment to a share is the committed polynomial at the domain point
    let points = dkg.domain_points();
    for (i, x) in points.iter().enumerate() {
        let mut acc = t.coeffs[t.coeffs.len() - 1].clone();
        for c in t.coeffs[..t.coeffs.len() - 1].iter().rev() {
            acc = c.add(&acc.mul(x));
        }
        assert_eq!(commitments[i], acc);
    }
}

#[test]
fn dealing_needs_as_many_validators_as_shares() {
    let keypairs = gen_keypairs(3);
    let validators = gen_validators(&keypairs);
    let dkg = PubliclyVerifiableDkg::new(
        &validators,
        &DkgParams::new(TAU, 3, 4).unwrap(),
        &validators[0],
    )
    .unwrap();
    let rng = &mut test_rng();
    assert_eq!(dkg.generate_transcript(rng), Err(Error::InsufficientValidators(3, 4)));
}
