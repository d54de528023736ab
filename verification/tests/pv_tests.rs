use ferveo::curve::G1Point;
use ferveo::pv::{
    Aggregation, DkgState, Message, Params, PubliclyVerifiableDkg, PvError, PvssScheduler,
    TendermintValidator, ValidatorSet,
};
use ferveo::validator::Keypair;
use rand::rngs::StdRng;
use rand::SeedableRng;

fn test_rng() -> StdRng {
    StdRng::seed_from_u64(0xb10c)
}

fn gen_n_keypairs(n: u32) -> Vec<Keypair> {
    let rng = &mut test_rng();
    (0..n).map(|_| Keypair::new(rng)).collect()
}

fn gen_keypairs() -> Vec<Keypair> {
    gen_n_keypairs(4)
}

fn gen_n_validators(keypairs: &[Keypair], n: u32) -> ValidatorSet {
    ValidatorSet::new(
        (0..n)
            .map(|i| TendermintValidator {
                power: 1,
                address: format!("validator_{}", i),
                public_key: keypairs[i as usize].public_key(),
            })
            .collect(),
    )
}

fn gen_validators(keypairs: &[Keypair]) -> ValidatorSet {
    gen_n_validators(keypairs, 4)
}

fn setup_dkg_for_n_validators(
    n_validators: u32,
    security_threshold: u32,
    shares_num: u32,
    my_index: usize,
) -> PubliclyVerifiableDkg {
    let keypairs = gen_n_keypairs(n_validators);
    let validators = gen_n_validators(&keypairs, n_validators);
    let me = validators.validators[my_index].clone();
    PubliclyVerifiableDkg::new(
        validators,
        Params { tau: 0, security_threshold, shares_num, retry_after: 2 },
        me,
        keypairs[my_index].clone(),
    )
    .expect("Setup failed")
}

fn setup_dkg(validator: usize) -> PubliclyVerifiableDkg {
    setup_dkg_for_n_validators(4, 2, 6, validator)
}

fn setup_dealt_dkg() -> PubliclyVerifiableDkg {
    setup_dealt_dkg_with_n_validators(2, 4)
}

fn setup_dealt_dkg_with_n_validators(security_threshold: u32, shares_num: u32) -> PubliclyVerifiableDkg {
    let n_validators = shares_num;
    let is_power_of_2 = |n: u32| n != 0 && (n & (n - 1)) == 0;
    assert!(is_power_of_2(shares_num));

    let rng = &mut test_rng();

    // Gather everyone's transcripts
    let transcripts: Vec<Message> = (0..n_validators)
        .map(|i| {
            let dkg =
                setup_dkg_for_n_validators(n_validators, security_threshold, shares_num, i as usize);
            dkg.share(rng).expect("Test failed")
        })
        .collect();

    let mut dkg = setup_dkg_for_n_validators(n_validators, security_threshold, shares_num, 0);
    for (sender, pvss) in transcripts.into_iter().enumerate() {
        let sender = dkg.validators[sender].validator.clone();
        dkg.apply_message(sender, pvss).expect("Setup failed");
    }
    dkg
}

fn sharing(accumulated_shares: u32, block: u32) -> DkgState {
    DkgState::Sharing { accumulated_shares, block }
}

#[test]
fn pv_test_dkg_fail_unknown_validator() {
    let rng = &mut test_rng();
    let keypairs = gen_keypairs();
    let keypair = Keypair::new(rng);
    let err = PubliclyVerifiableDkg::new(
        gen_validators(&keypairs),
        Params { tau: 0, security_threshold: 4, shares_num: 8, retry_after: 2 },
        TendermintValidator {
            power: 9001,
            address: "non-existant-validator".into(),
            public_key: keypair.public_key(),
        },
        keypair,
    )
    .expect_err("Test failed");
    assert_eq!(err.to_string(), "could not find this validator in the provided validator set")
}

#[test]
fn test_validator_windows() {
    for i in 0..4_u32 {
        let dkg = setup_dkg(i as usize);
        assert_eq!(dkg.window, (2 * i, 2 * i + 2));
    }
}

#[test]
fn pv_test_pvss_dealing() {
    let rng = &mut test_rng();
    // gather everyone's transcripts
    let mut transcripts = vec![];
    for i in 0..4 {
        let dkg = setup_dkg(i);
        transcripts.push(dkg.share(rng).expect("Test failed"));
    }
    // our test dkg
    let mut dkg = setup_dkg(0);
    // iterate over transcripts
    let mut expected = 0u32;
    for (sender, pvss) in transcripts.iter().enumerate() {
        // check the verification passes
        assert!(dkg.verify_message(&dkg.validators[sender].validator, pvss).is_ok());
        // check that application passes
        assert!(dkg.apply_message(dkg.validators[sender].validator.clone(), pvss.clone()).is_ok());
        expected += 1;
        if sender < transcripts.len() - 1 {
            // check that shares accumulates correctly
            match dkg.state {
                DkgState::Sharing { accumulated_shares, .. } => {
                    assert_eq!(accumulated_shares, expected)
                }
                _ => panic!("Test failed"),
            }
        } else {
            // check that when enough shares is accumulated, we transition state
            assert!(matches!(dkg.state, DkgState::Dealt));
        }
    }
}

#[test]
fn pv_test_pvss_from_unknown_dealer_rejected() {
    let rng = &mut test_rng();
    let mut dkg = setup_dkg(0);
    assert!(matches!(dkg.state, DkgState::Sharing { accumulated_shares: 0, block: 0 }));
    let pvss = dkg.share(rng).expect("Test failed");
    let sender = TendermintValidator {
        power: 9001,
        address: "Goku".into(),
        public_key: Keypair::new(rng).public_key(),
    };
    // check that verification fails
    assert!(dkg.verify_message(&sender, &pvss).is_err());
    assert_eq!(dkg.verify_message(&sender, &pvss), Err(PvError::UnknownDealer));
    // check that application fails
    assert!(dkg.apply_message(sender, pvss).is_err());
    // check that state has not changed
    assert!(matches!(dkg.state, DkgState::Sharing { accumulated_shares: 0, block: 0 }));
}

#[test]
fn pv_test_pvss_sent_twice_rejected() {
    let rng = &mut test_rng();
    let mut dkg = setup_dkg(0);
    assert!(matches!(dkg.state, DkgState::Sharing { accumulated_shares: 0, block: 0 }));
    let pvss = dkg.share(rng).expect("Test failed");
    let sender = dkg.validators[3].validator.clone();
    assert!(dkg.verify_message(&sender, &pvss).is_ok());
    assert!(dkg.apply_message(sender.clone(), pvss.clone()).is_ok());
    // check that state has appropriately changed
    assert!(matches!(dkg.state, DkgState::Sharing { accumulated_shares: 1, block: 0 }));
    // check that sending another pvss from same sender fails
    assert!(dkg.verify_message(&sender, &pvss).is_err());
    assert_eq!(dkg.verify_message(&sender, &pvss), Err(PvError::RepeatDealer(3)));
    assert_eq!(PvError::RepeatDealer(3).to_string(), "Repeat dealer 3");
}

#[test]
fn pv_test_own_pvss() {
    let rng = &mut test_rng();
    let mut dkg = setup_dkg(0);
    assert!(matches!(dkg.state, DkgState::Sharing { accumulated_shares: 0, block: 0 }));
    // create share message and check state update
    let pvss = dkg.share(rng).expect("Test failed");
    assert!(matches!(dkg.state, DkgState::Sharing { accumulated_shares: 0, block: 0 }));
    let sender = dkg.validators[0].validator.clone();
    assert!(dkg.verify_message(&sender, &pvss).is_ok());
    assert!(dkg.apply_message(sender, pvss).is_ok());
    assert!(matches!(dkg.state, DkgState::Sharing { accumulated_shares: 1, block: 0 }));
}

#[test]
fn test_pvss_cannot_share_from_wrong_state() {
    let rng = &mut test_rng();
    let mut dkg = setup_dkg(0);
    assert!(matches!(dkg.state, DkgState::Sharing { accumulated_shares: 0, block: 0 }));

    dkg.state = DkgState::Success { final_key: G1Point::identity() };
    assert!(dkg.share(rng).is_err());
    assert_eq!(dkg.share(rng), Err(PvError::NotInDealingState));

    // check that even if security threshold is met, we can still share
    dkg.state = DkgState::Dealt;
    assert!(dkg.share(rng).is_ok());
}

#[test]
fn test_share_message_state_guards() {
    let rng = &mut test_rng();
    let mut dkg = setup_dkg(0);
    let pvss = dkg.share(rng).expect("Test failed");
    assert!(matches!(dkg.state, DkgState::Sharing { accumulated_shares: 0, block: 0 }));

    let sender = dkg.validators[3].validator.clone();
    dkg.state = DkgState::Success { final_key: G1Point::identity() };
    assert!(dkg.verify_message(&sender, &pvss).is_err());
    assert!(dkg.apply_message(sender.clone(), pvss.clone()).is_err());

    // check that we can still accept pvss transcripts after meeting threshold
    dkg.state = DkgState::Dealt;
    assert!(dkg.verify_message(&sender, &pvss).is_ok());
    assert!(dkg.apply_message(sender, pvss).is_ok());
    assert!(matches!(dkg.state, DkgState::Dealt))
}

#[test]
fn test_pvss_wait_before_window() {
    let mut dkg = setup_dkg(1);
    if let DkgState::Sharing { block, .. } = dkg.state {
        assert!(dkg.window.0 > block);
    } else {
        panic!("Test failed");
    }
    assert_eq!(dkg.increase_block(), PvssScheduler::Wait);
}

#[test]
fn test_pvss_wait_if_not_in_sharing_state() {
    let mut dkg = setup_dkg(0);
    for state in vec![
        DkgState::Dealt,
        DkgState::Success { final_key: G1Point::identity() },
        DkgState::Invalid,
    ] {
        dkg.state = state;
        assert_eq!(dkg.increase_block(), PvssScheduler::Wait);
    }
}

#[test]
fn test_pvss_wait_if_already_applied() {
    let rng = &mut test_rng();
    let mut dkg = setup_dkg(0);
    let pvss = dkg.share(rng).expect("Test failed");
    let sender = dkg.validators[0].validator.clone();
    assert!(dkg.verify_message(&sender, &pvss).is_ok());
    assert!(dkg.apply_message(sender, pvss).is_ok());
    assert_eq!(dkg.increase_block(), PvssScheduler::Wait);
}

#[test]
fn test_pvss_reissue() {
    let mut dkg = setup_dkg(0);
    dkg.state = sharing(0, 2);
    assert_eq!(dkg.increase_block(), PvssScheduler::Issue);
    assert_eq!(dkg.state, sharing(0, 1));
    assert_eq!(dkg.increase_block(), PvssScheduler::Wait);
    assert_eq!(dkg.state, sharing(0, 2));
}

#[test]
fn test_pvss_wait_middle_of_window() {
    let mut dkg = setup_dkg(0);
    assert_eq!(dkg.increase_block(), PvssScheduler::Issue);
    if let DkgState::Sharing { block, .. } = dkg.state {
        assert!(dkg.window.0 < block && block < dkg.window.1);
    } else {
        panic!("Test failed");
    }
    assert_eq!(dkg.increase_block(), PvssScheduler::Wait);
}

#[test]
fn pv_test_aggregate() {
    let mut dkg = setup_dealt_dkg();
    let aggregate = dkg.aggregate().expect("Test failed");
    let sender = dkg.validators[dkg.me].validator.clone();
    assert!(dkg.verify_message(&sender, &aggregate).is_ok());
    assert!(dkg.apply_message(sender, aggregate).is_ok());
    assert!(matches!(dkg.state, DkgState::Success { .. }));
    assert_eq!(dkg.state, DkgState::Success { final_key: dkg.final_key().unwrap() });
}

#[test]
fn test_aggregate_state_guards() {
    let mut dkg = setup_dealt_dkg();
    dkg.state = sharing(0, 0);
    assert!(dkg.aggregate().is_err());
    dkg.state = DkgState::Success { final_key: G1Point::identity() };
    assert!(dkg.aggregate().is_err());
    assert_eq!(dkg.aggregate(), Err(PvError::NotEnoughTranscripts));
}

#[test]
fn test_aggregate_message_state_guards() {
    let mut dkg = setup_dealt_dkg();
    let aggregate = dkg.aggregate().expect("Test failed");
    let sender = dkg.validators[dkg.me].validator.clone();
    dkg.state = sharing(0, 0);
    assert!(dkg.verify_message(&sender, &aggregate).is_err());
    assert!(dkg.apply_message(sender.clone(), aggregate.clone()).is_err());
    dkg.state = DkgState::Success { final_key: G1Point::identity() };
    assert!(dkg.verify_message(&sender, &aggregate).is_err());
    assert_eq!(dkg.verify_message(&sender, &aggregate), Err(PvError::WrongStateToVerify));
    assert_eq!(dkg.apply_message(sender, aggregate), Err(PvError::WrongStateToApply))
}

#[test]
fn pv_test_aggregate_wont_verify_if_under_threshold() {
    let mut dkg = setup_dealt_dkg();
    dkg.params.shares_num = 10;
    let aggregate = dkg.aggregate().expect("Test failed");
    let sender = dkg.validators[dkg.me].validator.clone();
    assert!(dkg.verify_message(&sender, &aggregate).is_err());
    assert_eq!(dkg.verify_message(&sender, &aggregate), Err(PvError::InsufficientShares));
}

#[test]
fn test_aggregate_wont_verify_if_wrong_key() {
    let dkg = setup_dealt_dkg();
    let mut aggregate = dkg.aggregate().expect("Test failed");
    assert_ne!(dkg.final_key().unwrap(), G1Point::identity());
    if let Message::Aggregate(Aggregation { final_key, .. }) = &mut aggregate {
        *final_key = G1Point::identity();
    }
    let sender = dkg.validators[dkg.me].validator.clone();
    assert!(dkg.verify_message(&sender, &aggregate).is_err());
    assert_eq!(dkg.verify_message(&sender, &aggregate), Err(PvError::WrongFinalKey));
}

#[test]
fn block_driven_transcripts_have_the_degree_of_the_parameters() {
    let rng = &mut test_rng();
    let dkg = setup_dkg(0);
    let message = dkg.share(rng).expect("Test failed");
    if let Message::Deal(pvss) = message {
        // the degree is the number of shares less the threshold
        assert_eq!(pvss.coeffs.len(), 5);
        assert_eq!(pvss.shares.len(), 4);
        assert!(pvss.verify_optimistic());
    } else {
        panic!("Test failed");
    }
    let dealt = setup_dealt_dkg();
    if let Message::Aggregate(aggregation) = dealt.aggregate().unwrap() {
        assert_eq!(dealt.verify_aggregation(&aggregation.vss), Ok(4));
        let mut tampered = aggregation.vss.clone();
        tampered.shares[1] = tampered.shares[0].clone();
        assert_eq!(dealt.verify_aggregation(&tampered), Err(PvError::AggregationMismatch));
    } else {
        panic!("Test failed");
    }
}
