use ferveo::api::FerveoVariant;
use ferveo::curve::{G1Point, G2Point, GtElement};
use ferveo::dkg::{DkgParams, PubliclyVerifiableDkg};
use ferveo::error::{Error, EthereumAddressParseError};
use ferveo::messages::ValidatorMessage;
use ferveo::pvss::PubliclyVerifiableSS;
use ferveo::scalar::Scalar;
use ferveo::validator::{EthereumAddress, Keypair, Validator};
use rand::rngs::StdRng;
use rand::SeedableRng;

const TAU: u32 = 0;
const SECURITY_THRESHOLD: u32 = 3;
const SHARES_NUM: u32 = 4;
const VALIDATORS_NUM: u32 = SHARES_NUM;

fn test_rng() -> StdRng {
    StdRng::seed_from_u64(0x5eed)
}

fn gen_keypairs(n: u32) -> Vec<Keypair> {
    let mut rng = test_rng();
    (0..n).map(|_| Keypair::new(&mut rng)).collect()
}

fn gen_address(i: usize) -> EthereumAddress {
    EthereumAddress::from_str(&format!("0x{i:040}")).unwrap()
}

fn gen_validators(keypairs: &[Keypair]) -> Vec<Validator> {
    keypairs
        .iter()
        .enumerate()
        .map(|(i, keypair)| Validator {
            address: gen_address(i),
            public_key: keypair.public_key(),
            share_index: i as u32,
        })
        .collect()
}

fn setup_dkg_for_n_validators(
    security_threshold: u32,
    shares_num: u32,
    my_validator_index: usize,
) -> (PubliclyVerifiableDkg, Vec<Keypair>) {
    let keypairs = gen_keypairs(shares_num);
    let validators = gen_validators(&keypairs);
    let me = validators[my_validator_index].clone();
    let dkg = PubliclyVerifiableDkg::new(
        &validators,
        &DkgParams::new(TAU, security_threshold, shares_num).unwrap(),
        &me,
    )
    .expect("Setup failed");
    (dkg, keypairs)
}

fn setup_dkg(my_validator_index: usize) -> (PubliclyVerifiableDkg, Vec<Keypair>) {
    setup_dkg_for_n_validators(SECURITY_THRESHOLD, SHARES_NUM, my_validator_index)
}

fn make_messages(rng: &mut StdRng, dkg: &PubliclyVerifiableDkg) -> Vec<ValidatorMessage> {
    let mut messages = vec![];
    for i in 0..dkg.validators().len() {
        let (dkg, _) = setup_dkg_for_n_validators(
            dkg.dkg_params().security_threshold(),
            dkg.dkg_params().shares_num(),
            i,
        );
        let sender = dkg.me().clone();
        let transcript = dkg.generate_transcript(rng).unwrap();
        messages.push((sender, transcript));
    }
    messages
}

fn setup_dealt_dkg_with_n_validators(
    security_threshold: u32,
    shares_num: u32,
    _validators_num: u32,
) -> (PubliclyVerifiableDkg, Vec<Keypair>, Vec<ValidatorMessage>) {
    let rng = &mut test_rng();
    let (dkg, keypairs) = setup_dkg_for_n_validators(security_threshold, shares_num, 0);
    let messages = make_messages(rng, &dkg);
    (dkg, keypairs, messages)
}

fn hex_of(bytes: &[u8]) -> String {
    bytes.iter().map(|b| format!("{b:02x}")).collect()
}

#[test]
fn generators_have_their_standard_encodings() {
    assert_eq!(
        hex_of(&G1Point::generator().to_bytes()),
        "97f1d3a73197d7942695638c4fa9ac0fc3688c4f9774b905a14e3a3f171bac586c55e83ff97a1aeffb3af00adb22c6bb"
    );
    assert_eq!(
        hex_of(&G2Point::generator().to_bytes()),
        "93e02b6052719f607dacd3a088274f65596bd0d09920b61ab5da61bbdc7f5049334cf11213945d57e5ac7d055d042b7e024aa2b2f08f0a91260805272dc51051c6e47ad4fa403b02b4510b647ae3d1770bac0326a805bbefd48056c8c121bdb8"
    );
    let mut identity = vec![0u8; 48];
    identity[0] = 0xc0;
    assert_eq!(G1Point::identity().to_bytes(), identity);
    let mut identity = vec![0u8; 96];
    identity[0] = 0xc0;
    assert_eq!(G2Point::identity().to_bytes(), identity);
    let mut one = vec![0u8; 576];
    one[0] = 1;
    assert_eq!(GtElement::one().to_bytes(), one);
    assert!(G1Point::identity().is_identity());
    assert!(!G1Point::generator().is_identity());
}

#[test]
fn scalar_arithmetic_is_modular() {
    let one = Scalar::one();
    let zero = Scalar::zero();
    let two = one.add(&one);
    let mut expected = vec![0u8; 32];
    expected[0] = 2;
    assert_eq!(two.to_bytes(), expected);
    // 0 - 1 is the modulus minus one
    let minus_one = zero.sub(&one);
    let modulus_minus_one =
        "00000000fffffffffe5bfeff02a4bd5305d8a10908d83933487d9d2953a7ed73";
    assert_eq!(hex_of(&minus_one.to_bytes()), modulus_minus_one);
    assert!(minus_one.mul(&minus_one).equals(&one));
    assert!(zero.inverse().is_none());
    let inv = two.inverse().unwrap();
    assert!(inv.mul(&two).equals(&one));
    assert!(minus_one.add(&one).is_zero());
}

#[test]
fn test_domain_points_size_is_power_of_2() {
    let validators_num = 6;
    let (dkg, _, _) =
        setup_dealt_dkg_with_n_validators(validators_num, validators_num, validators_num);
    assert_eq!(dkg.domain_size(), 8);
}

#[test]
fn test_shares_num_less_than_security_threshold() {
    let dkg_params = DkgParams::new(TAU, SHARES_NUM + 1, SHARES_NUM);
    assert!(dkg_params.is_err());
}

#[test]
fn test_valid_dkg_params() {
    let dkg_params = DkgParams::new(TAU, SECURITY_THRESHOLD, SHARES_NUM);
    assert!(dkg_params.is_ok());
}

#[test]
fn dkg_params_errors_are_exact() {
    assert_eq!(DkgParams::new(1, 0, 4), Err(Error::InvalidDkgParameters(4, 0)));
    assert_eq!(DkgParams::new(1, 5, 4), Err(Error::InvalidDkgParameters(4, 5)));
    assert_eq!(DkgParams::new(1, 0, 0), Err(Error::InvalidDkgParameters(0, 0)));
    let p = DkgParams::new(7, 4, 4).unwrap();
    assert_eq!((p.tau(), p.security_threshold(), p.shares_num()), (7, 4, 4));
}

#[test]
fn variant_tags_round_trip() {
    assert_eq!(FerveoVariant::Simple.as_str(), "FerveoVariant::Simple");
    assert_eq!(FerveoVariant::Precomputed.as_str(), "FerveoVariant::Precomputed");
    assert_eq!(
        FerveoVariant::from_string("FerveoVariant::Simple"),
        Ok(FerveoVariant::Simple)
    );
    assert_eq!(
        FerveoVariant::from_string("FerveoVariant::Precomputed"),
        Ok(FerveoVariant::Precomputed)
    );
    assert_eq!(
        FerveoVariant::from_string("simple"),
        Err(Error::InvalidVariant("simple".to_string()))
    );
}

#[test]
fn dkg_test_pvss_dealing() {
    let rng = &mut test_rng();
    let (dkg, _) = setup_dkg(0);
    let messages = make_messages(rng, &dkg);
    assert!(dkg.verify_transcripts(&messages).is_ok());
    for (_, t) in messages.iter() {
        assert!(t.verify_optimistic());
        assert!(t.verify_full(&dkg).unwrap());
    }
    let _unused: Option<PubliclyVerifiableSS> = None;
}

const MSG: &[u8] = b"my-msg";
const AAD: &[u8] = b"my-aad";

/// Test that dkg fails to start if the `me` input is not in the validator set
#[test]
fn dkg_test_dkg_fail_unknown_validator() {
    let rng = &mut test_rng();
    let known_keypairs = gen_keypairs(SHARES_NUM);
    let unknown_keypair = Keypair::new(rng);
    let unknown_validator = Validator {
        address: gen_address((SHARES_NUM + 1) as usize),
        public_key: unknown_keypair.public_key(),
        share_index: SHARES_NUM + 5, // Not in the validator set
    };
    let err = PubliclyVerifiableDkg::new(
        &gen_validators(&known_keypairs),
        &DkgParams::new(TAU, SECURITY_THRESHOLD, SHARES_NUM).unwrap(),
        &unknown_validator,
    )
    .unwrap_err();
    assert_eq!(err.to_string(), "Expected validator to be a part of the DKG validator set: 0x0000000000000000000000000000000000000005")
}

#[test]
fn test_canonical_share_indices_are_enforced() {
    let shares_num = 4;
    let security_threshold = shares_num;
    let keypairs = gen_keypairs(shares_num);
    let mut validators = gen_validators(&keypairs);
    let me = validators[0].clone();

    // Validators (share indices) are not unique
    let duplicated_index = 0;
    validators.insert(duplicated_index, me.clone());

    // And because of that the DKG should fail
    let result = PubliclyVerifiableDkg::new(
        &validators,
        &DkgParams::new(0, security_threshold, shares_num).unwrap(),
        &me,
    );
    assert!(result.is_err());
    assert_eq!(
        result.unwrap_err().to_string(),
        Error::DuplicatedShareIndex(duplicated_index as u32).to_string()
    );
    assert_eq!(Error::DuplicatedShareIndex(0).to_string(), "Duplicated share index: 0");
}

#[test]
fn share_indices_must_be_a_prefix() {
    let keypairs = gen_keypairs(4);
    let mut validators = gen_validators(&keypairs);
    validators[3].share_index = 7;
    let result = PubliclyVerifiableDkg::new(
        &validators,
        &DkgParams::new(0, 3, 4).unwrap(),
        &validators[0],
    );
    assert_eq!(result.unwrap_err(), Error::InvalidShareIndex(7));
    let mut validators = gen_validators(&keypairs);
    let mut me = validators[1].clone();
    me.public_key = keypairs[2].public_key();
    let result =
        PubliclyVerifiableDkg::new(&validators, &DkgParams::new(0, 3, 4).unwrap(), &me);
    assert_eq!(result.unwrap_err(), Error::ValidatorPublicKeyMismatch);
    validators.truncate(0);
    assert!(
        PubliclyVerifiableDkg::new(&validators, &DkgParams::new(0, 3, 4).unwrap(), &me).is_err()
    );
}

#[test]
fn test_validator_ordering() {
    let shares_num = 4;
    let security_threshold = shares_num;
    let keypairs = gen_keypairs(shares_num);
    // Create validators, ordered by address
    let mut validators = gen_validators(&keypairs);

    // Swap the share indices of two validators
    let me = Validator {
        address: validators[0].address.clone(),
        public_key: validators[0].public_key.clone(),
        share_index: 1,
    };
    let someone_else = Validator {
        address: validators[1].address.clone(),
        public_key: validators[1].public_key.clone(),
        share_index: 0,
    };
    validators[0] = me.clone();
    validators[1] = someone_else;

    let dkg = PubliclyVerifiableDkg::new(
        &validators,
        &DkgParams::new(0, security_threshold, shares_num).unwrap(),
        &me,
    )
    .unwrap();

    // The session keeps the share indices as they were passed to the constructor.
    for validator in validators.iter() {
        let validator_in_dkg = &dkg.validators()[validator.share_index as usize];
        assert_eq!(validator_in_dkg.share_index, validator.share_index);
        assert_eq!(validator_in_dkg.public_key, validator.public_key);
        assert_eq!(validator_in_dkg.address, validator.address);
    }
    assert_eq!(dkg.get_validator(&me.public_key).unwrap().share_index, 1);
    assert!(dkg.get_validator(&Keypair::new(&mut test_rng2()).public_key()).is_none());
}

fn test_rng2() -> StdRng {
    StdRng::seed_from_u64(77)
}

#[test]
fn dkg_test_pvss_from_unknown_dealer_rejected() {
    let rng = &mut test_rng();
    let (dkg, _) = setup_dkg(0);
    let mut messages = make_messages(rng, &dkg);

    // Need to make sure this falls outside the validator set:
    let unknown_validator_index = dkg.dkg_params().shares_num() + VALIDATORS_NUM + 1;
    let sender = Validator {
        address: gen_address(unknown_validator_index as usize),
        public_key: Keypair::new(rng).public_key(),
        share_index: unknown_validator_index,
    };
    let transcript = dkg.generate_transcript(rng).unwrap();
    messages.push((sender, transcript));

    assert!(dkg.verify_transcripts(&messages).is_err());
    assert_eq!(
        dkg.verify_transcripts(&messages),
        Err(Error::UnknownDealer(gen_address(9).to_string()))
    );
}

#[test]
fn dkg_test_pvss_sent_twice_rejected() {
    let rng = &mut test_rng();
    let (dkg, _) = setup_dkg(0);
    let mut messages = make_messages(rng, &dkg);

    messages.push(messages[0].clone());

    assert!(dkg.verify_transcripts(&messages).is_err());
    assert_eq!(
        dkg.verify_transcripts(&messages),
        Err(Error::DuplicateDealer(gen_address(0).to_string()))
    );
    // one transcript under two addresses
    let last = messages.len() - 1;
    messages[last].0.address = gen_address(3000);
    assert_eq!(
        dkg.verify_transcripts(&messages),
        Err(Error::DuplicateTranscript(gen_address(3000).to_string()))
    );
    // a transcript whose proof of knowledge fails
    let mut messages = make_messages(rng, &dkg);
    messages[2].1.sigma = G2Point::generator();
    assert_eq!(
        dkg.verify_transcripts(&messages),
        Err(Error::InvalidPvssTranscript(gen_address(2).to_string()))
    );
    // more transcripts than validators
    let mut messages = make_messages(rng, &dkg);
    let mut extra = make_messages(rng, &dkg).remove(0);
    extra.0.address = gen_address(4000);
    messages.push(extra);
    assert_eq!(dkg.verify_transcripts(&messages), Err(Error::TooManyTranscripts(4, 5)));
}

#[test]
fn dkg_test_own_pvss() {
    let rng = &mut test_rng();
    let (dkg, _) = setup_dkg(0);
    let messages: Vec<_> = make_messages(rng, &dkg).iter().take(1).cloned().collect();
    assert!(dkg.verify_transcripts(&messages).is_ok());
}

#[test]
fn dkg_test_aggregate() {
    let rng = &mut test_rng();
    let (dkg, _) = setup_dkg(0);
    let all_messages = make_messages(rng, &dkg);

    let not_enough_messages: Vec<_> = all_messages
        .iter()
        .take((dkg.dkg_params().security_threshold() - 1) as usize)
        .cloned()
        .collect();
    let bad_aggregate = dkg.aggregate_transcripts(&not_enough_messages).unwrap();

    let enough_messages: Vec<_> = all_messages
        .iter()
        .take(dkg.dkg_params().security_threshold() as usize)
        .cloned()
        .collect();
    let good_aggregate_1 = dkg.aggregate_transcripts(&enough_messages).unwrap();
    assert_ne!(bad_aggregate, good_aggregate_1);

    let good_aggregate_2 = dkg.aggregate_transcripts(&all_messages).unwrap();
    assert_ne!(good_aggregate_1, good_aggregate_2);
    assert_eq!(dkg.aggregate_transcripts(&[]), Err(Error::NoTranscriptsToAggregate));
}

#[test]
fn test_domain_point_determinism_for_share_number() {
    let validators_num = 6;
    let (dkg1, _, _) =
        setup_dealt_dkg_with_n_validators(validators_num, validators_num, validators_num);
    let (dkg2, _, _) =
        setup_dealt_dkg_with_n_validators(validators_num, validators_num, validators_num);
    assert_eq!(dkg1.domain_points(), dkg2.domain_points());
}

#[test]
fn test_domain_points_different_for_different_domain_size() {
    let validators_num = 6;
    let (dkg1, _) = setup_dkg_for_n_validators(validators_num, validators_num, 0);
    let (dkg2, _) = setup_dkg_for_n_validators(validators_num + 1, validators_num + 1, 0);
    assert_eq!(dkg1.domain_size(), 8);
    assert_eq!(dkg2.domain_size(), 8);
    assert_eq!(
        dkg1.domain_points()[..validators_num as usize],
        dkg2.domain_points()[..validators_num as usize]
    );

    let validators_num_different = 15;
    let (dkg3, _) =
        setup_dkg_for_n_validators(validators_num_different, validators_num_different, 0);
    assert_eq!(dkg3.domain_size(), 16);
    assert_ne!(dkg1.domain_points(), dkg3.domain_points());
    // the domain points are the powers of the generator
    let g = ferveo::domain::domain_generator(16);
    let points = dkg3.domain_points();
    assert!(points[0].equals(&Scalar::one()));
    assert!(points[1].equals(&g));
    assert!(points[2].equals(&g.mul(&g)));
    assert_eq!(dkg3.get_domain_point(15), Err(Error::InvalidShareIndex(15)));
    assert!(dkg3.get_domain_point(14).unwrap().equals(&points[14]));
    assert_eq!(ferveo::domain::domain_size_for(0), 1);
    assert_eq!(ferveo::domain::domain_size_for(1), 1);
    assert_eq!(ferveo::domain::domain_size_for(2), 2);
    assert_eq!(ferveo::domain::domain_size_for(3), 4);
    assert_eq!(ferveo::domain::domain_size_for(u32::MAX), 1u64 << 32);
}

#[test]
fn test_dkg_pk_serialization() {
    let mut rng = test_rng();
    let g1 = G1Point::generator().mul(&Scalar::random(&mut rng));
    let dkg_pk = ferveo::api::DkgPublicKey(ferveo::key_share::DkgPublicKey(g1));
    let serialized = dkg_pk.to_bytes().unwrap();
    let deserialized = ferveo::api::DkgPublicKey::from_bytes(&serialized).unwrap();
    assert_eq!(serialized.len(), 48_usize);
    assert_eq!(dkg_pk, deserialized);
    assert_eq!(ferveo::api::DkgPublicKey::serialized_size(), 48);
    assert_eq!(
        ferveo::api::DkgPublicKey::from_bytes(&serialized[..47]),
        Err(Error::InvalidByteLength(48, 47))
    );
    assert_eq!(
        ferveo::api::DkgPublicKey::from_bytes(&[0xffu8; 48]),
        Err(Error::DeserializationError)
    );
}

#[test]
fn addresses_are_parsed_strictly() {
    assert!(EthereumAddress::from_str("0x00000000000000000000000000000000000000ab").is_ok());
    assert_eq!(
        EthereumAddress::from_str("0x00000000000000000000000000000000000000a"),
        Err(EthereumAddressParseError::InvalidLength)
    );
    assert_eq!(
        EthereumAddress::from_str("0x00000000000000000000000000000000000000ag"),
        Err(EthereumAddressParseError::InvalidHex)
    );
    assert_eq!(
        EthereumAddress::from_str("0x00000000000000000000000000000000000000AB"),
        Err(EthereumAddressParseError::InvalidHex)
    );
    assert_eq!(
        EthereumAddress::from_str("1x00000000000000000000000000000000000000ab"),
        Err(EthereumAddressParseError::InvalidHex)
    );
    assert_eq!(
        Validator::new(
            "0x00".to_string(),
            Keypair::new(&mut test_rng()).public_key(),
            0
        )
        .unwrap_err()
        .to_string(),
        "Invalid Ethereum address length."
    );
    assert_eq!(gen_address(5).to_string(), "0x0000000000000000000000000000000000000005");
    let _ = (MSG, AAD);
}
