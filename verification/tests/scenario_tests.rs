use ferveo::api::{
    combine_shares_simple, decrypt_with_shared_secret, encrypt, AggregatedTranscript, Ciphertext,
    DecryptionShareSimple, Dkg, FieldPoint, SharedSecret,
};
use ferveo::ciphertext::SecretBox;
use ferveo::combine::{share_combine_precomputed, share_combine_simple};
use ferveo::curve::{G1Point, G2Point, GtElement};
use ferveo::decryption::DecryptionSharePrecomputed;
use ferveo::error::Error;
use ferveo::index_map::IndexMap;
use ferveo::key_share::{BlindedKeyShare, ShareCommitment};
use ferveo::messages::ValidatorMessage;
use ferveo::poly::prepare_combine_simple;
use ferveo::pvss::{get_share_commitments_from_poly_commitments, PubliclyVerifiableSS};
use ferveo::refresh::{HandoverTranscript, ShareUpdate, UpdatableBlindedKeyShare, UpdateTranscript};
use ferveo::scalar::Scalar;
use ferveo::validator::{EthereumAddress, Keypair, PublicKey, Validator};
use rand::rngs::StdRng;
use rand::SeedableRng;

const TAU: u32 = 1;
const MSG: &[u8] = b"abc";
const AAD: &[u8] = b"my-aad";

fn test_rng() -> StdRng {
    StdRng::seed_from_u64(0xd6)
}

fn gen_address(i: usize) -> EthereumAddress {
    EthereumAddress::from_str(&format!("0x{i:040}")).unwrap()
}

struct World {
    validators: Vec<Validator>,
    keypairs: Vec<Keypair>,
    messages: Vec<ValidatorMessage>,
    shares_num: u32,
    threshold: u32,
}

fn make_world(rng: &mut StdRng, shares_num: u32, threshold: u32) -> World {
    let keypairs: Vec<Keypair> = (0..shares_num).map(|_| Keypair::new(rng)).collect();
    let validators: Vec<Validator> = keypairs
        .iter()
        .enumerate()
        .map(|(i, k)| Validator {
            address: gen_address(i),
            public_key: k.public_key(),
            share_index: i as u32,
        })
        .collect();
    let messages = validators
        .iter()
        .map(|sender| {
            let dkg = Dkg::new(TAU, shares_num, threshold, &validators, sender).unwrap();
            (sender.clone(), dkg.generate_transcript(rng).unwrap())
        })
        .collect();
    World { validators, keypairs, messages, shares_num, threshold }
}

impl World {
    fn dkg(&self, i: usize) -> Dkg {
        Dkg::new(TAU, self.shares_num, self.threshold, &self.validators, &self.validators[i])
            .unwrap()
    }

    fn aggregate(&self) -> AggregatedTranscript {
        let agg = self.dkg(0).aggregate_transcripts(&self.messages).unwrap();
        assert!(agg.verify(self.shares_num, &self.messages).unwrap());
        agg
    }

    fn simple_share(&self, agg: &AggregatedTranscript, i: usize, ct: &Ciphertext, aad: &[u8]) -> DecryptionShareSimple {
        agg.create_decryption_share_simple(&self.dkg(i), &ct.header().unwrap(), aad, &self.keypairs[i])
            .unwrap()
    }
}

/// Four validators, three decrypt: any three simple shares recover the
/// plaintext, two do not.
#[test]
fn scenario_simple_threshold() {
    let rng = &mut test_rng();
    let world = make_world(rng, 4, 3);
    let agg = world.aggregate();
    let ct = encrypt(SecretBox::new(MSG.to_vec()), b"my-aad", &agg.public_key(), rng).unwrap();
    let shares: Vec<DecryptionShareSimple> =
        (0..4).map(|i| world.simple_share(&agg, i, &ct, AAD)).collect();

    let secret = combine_shares_simple(&shares[..3]);
    assert_eq!(decrypt_with_shared_secret(&ct, AAD, &secret).unwrap(), MSG);

    for dropped in 0..4 {
        let three: Vec<DecryptionShareSimple> = shares
            .iter()
            .enumerate()
            .filter(|(i, _)| *i != dropped)
            .map(|(_, s)| s.clone())
            .collect();
        let again = combine_shares_simple(&three);
        assert_eq!(again, secret);
        assert_eq!(decrypt_with_shared_secret(&ct, AAD, &again).unwrap(), MSG);
    }
    // all four, and in another order
    let mut all = shares.clone();
    all.reverse();
    assert_eq!(combine_shares_simple(&all), secret);

    let two = combine_shares_simple(&shares[..2]);
    assert_eq!(
        decrypt_with_shared_secret(&ct, AAD, &two),
        Err(Error::SymmetricEncryptionError)
    );
}

fn precomputed_shares(
    world: &World,
    agg: &AggregatedTranscript,
    ct: &Ciphertext,
    selected: &[usize],
) -> Vec<DecryptionSharePrecomputed> {
    let selected_validators: Vec<Validator> =
        selected.iter().map(|i| world.validators[*i].clone()).collect();
    selected
        .iter()
        .map(|i| {
            agg.create_decryption_share_precomputed(
                &world.dkg(*i),
                &ct.header().unwrap(),
                AAD,
                &world.keypairs[*i],
                &selected_validators,
            )
            .unwrap()
        })
        .collect()
}

/// Seven validators, four decrypt, precomputed for the set {1, 3, 5, 6}.
#[test]
fn scenario_precomputed_selection() {
    let rng = &mut test_rng();
    let world = make_world(rng, 7, 4);
    let agg = world.aggregate();
    let ct = encrypt(SecretBox::new(MSG.to_vec()), AAD, &agg.public_key(), rng).unwrap();

    let shares = precomputed_shares(&world, &agg, &ct, &[1, 3, 5, 6]);
    assert_eq!(shares.iter().map(|s| s.decrypter_index).collect::<Vec<_>>(), vec![1, 3, 5, 6]);
    let secret = SharedSecret(share_combine_precomputed(&shares));
    assert_eq!(decrypt_with_shared_secret(&ct, AAD, &secret).unwrap(), MSG);

    // the same secret as on the simple path
    let simple: Vec<DecryptionShareSimple> =
        [0usize, 2, 4, 6].iter().map(|i| world.simple_share(&agg, *i, &ct, AAD)).collect();
    assert_eq!(combine_shares_simple(&simple), secret);

    // a share made for another selection does not fit
    let other = precomputed_shares(&world, &agg, &ct, &[0, 3, 5, 6]);
    let mut mixed = shares.clone();
    mixed[1] = other[1].clone();
    let bad = SharedSecret(share_combine_precomputed(&mixed));
    assert_eq!(
        decrypt_with_shared_secret(&ct, AAD, &bad),
        Err(Error::SymmetricEncryptionError)
    );
    // a validator that is not selected gets no share
    let selected_validators: Vec<Validator> =
        [1usize, 3, 5, 6].iter().map(|i| world.validators[*i].clone()).collect();
    assert_eq!(
        agg.create_decryption_share_precomputed(
            &world.dkg(0),
            &ct.header().unwrap(),
            AAD,
            &world.keypairs[0],
            &selected_validators,
        ),
        Err(Error::InvalidShareIndex(0))
    );
}

/// A tampered share passes the optimistic check and fails the full one.
#[test]
fn scenario_tampered_share() {
    let rng = &mut test_rng();
    let world = make_world(rng, 4, 3);
    let dkg = world.dkg(0);
    let transcript = world.messages[0].1.clone();
    assert!(transcript.verify_optimistic());
    assert_eq!(transcript.verify_full(&dkg.0), Ok(true));

    // flipping the low bit of a share leaves no point of the group
    let mut bytes = transcript.to_bytes().unwrap();
    let first_share = 4 + 48 * 3 + 4;
    bytes[first_share + 95] ^= 1;
    assert_eq!(
        PubliclyVerifiableSS::<ferveo::pvss::Unaggregated>::from_bytes(&bytes),
        Err(Error::DeserializationError)
    );
    // another point in its place is caught by the full check only
    let mut tampered = transcript.clone();
    tampered.shares[0] = tampered.shares[0].add(&G2Point::generator());
    assert!(tampered.verify_optimistic());
    assert_eq!(tampered.verify_full(&dkg.0), Ok(false));
    // and so is a changed commitment or proof of knowledge
    let mut tampered = transcript.clone();
    tampered.coeffs[1] = tampered.coeffs[1].add(&G1Point::generator());
    assert_eq!(tampered.verify_full(&dkg.0), Ok(false));
    let mut tampered = transcript.clone();
    tampered.sigma = tampered.sigma.add(&G2Point::generator());
    assert!(!tampered.verify_optimistic());
    assert_eq!(tampered.verify_full(&dkg.0), Ok(false));
}

/// A changed payload or changed associated data does not decrypt.
#[test]
fn scenario_header_binding() {
    let rng = &mut test_rng();
    let world = make_world(rng, 4, 3);
    let agg = world.aggregate();
    let ct = encrypt(SecretBox::new(MSG.to_vec()), AAD, &agg.public_key(), rng).unwrap();
    let shares: Vec<DecryptionShareSimple> =
        (0..3).map(|i| world.simple_share(&agg, i, &ct, AAD)).collect();
    let secret = combine_shares_simple(&shares);
    assert_eq!(decrypt_with_shared_secret(&ct, AAD, &secret).unwrap(), MSG);

    let mut changed = ct.clone();
    changed.0.ciphertext[0] ^= 1;
    assert!(decrypt_with_shared_secret(&changed, AAD, &secret).is_err());
    assert!(changed.0.check(AAD).is_err());

    assert_eq!(
        decrypt_with_shared_secret(&ct, b"bad aad", &secret),
        Err(Error::CiphertextVerificationFailed)
    );
    // no share is made for a header that does not verify
    assert_eq!(
        agg.create_decryption_share_simple(
            &world.dkg(0),
            &ct.header().unwrap(),
            b"bad aad",
            &world.keypairs[0]
        ),
        Err(Error::CiphertextVerificationFailed)
    );
}

fn keys_map(world: &World) -> IndexMap<PublicKey> {
    let mut map = IndexMap::new();
    for v in world.validators.iter() {
        map = map.insert(v.share_index, v.public_key.clone());
    }
    map
}

/// After a refresh, the refreshed shares decrypt an old ciphertext.
#[test]
fn scenario_refresh() {
    let rng = &mut test_rng();
    let world = make_world(rng, 4, 3);
    let agg = world.aggregate();
    let ct = encrypt(SecretBox::new(MSG.to_vec()), AAD, &agg.public_key(), rng).unwrap();
    let old_secret =
        combine_shares_simple(&(0..3).map(|i| world.simple_share(&agg, i, &ct, AAD)).collect::<Vec<_>>());

    let mut updates: IndexMap<UpdateTranscript> = IndexMap::new();
    for i in 0..4 {
        let transcript = world.dkg(i).generate_refresh_transcript(rng).unwrap();
        assert!(transcript.coeffs[0].is_identity());
        assert_eq!(transcript.coeffs.len(), 3);
        assert_eq!(transcript.verify_refresh(&keys_map(&world), 4), Ok(true));
        updates = updates.insert(i as u32, transcript);
    }
    let refreshed = agg.refresh(&updates, &keys_map(&world)).unwrap();

    // commitments, proof of knowledge and public key stay; the shares change
    assert_eq!(refreshed.0.aggregate.coeffs, agg.0.aggregate.coeffs);
    assert_eq!(refreshed.0.aggregate.sigma, agg.0.aggregate.sigma);
    assert_eq!(refreshed.public_key(), agg.public_key());
    for j in 0..4 {
        assert_ne!(refreshed.0.aggregate.shares[j], agg.0.aggregate.shares[j]);
        let mut expected = agg.0.aggregate.shares[j].clone();
        for p in 0..4u32 {
            expected = expected.add(&updates.get(p).unwrap().updates.get(j as u32).unwrap().update);
        }
        assert_eq!(refreshed.0.aggregate.shares[j], expected);
    }
    // the proof of knowledge still holds of the unchanged commitment
    assert!(refreshed.0.aggregate.verify_optimistic());

    let new_secret = combine_shares_simple(
        &(1..4).map(|i| world.simple_share(&refreshed, i, &ct, AAD)).collect::<Vec<_>>(),
    );
    assert_eq!(new_secret, old_secret);
    assert_eq!(decrypt_with_shared_secret(&ct, AAD, &new_secret).unwrap(), MSG);

    // an update that does not match its commitment is refused
    let mut bad = IndexMap::new();
    let mut transcript = world.dkg(0).generate_refresh_transcript(rng).unwrap();
    let good_update = transcript.updates.get(1).unwrap().clone();
    transcript.updates = transcript.updates.insert(
        1,
        ShareUpdate { update: good_update.update.add(&G2Point::generator()), commitment: good_update.commitment },
    );
    assert_eq!(transcript.verify_refresh(&keys_map(&world), 4), Err(Error::InvalidShareUpdate));
    bad = bad.insert(0, transcript);
    assert_eq!(agg.refresh(&bad, &keys_map(&world)), Err(Error::InvalidShareUpdate));
    // a recovery transcript is no refresh transcript
    let x_r = Scalar::random(rng);
    let recovery = UpdateTranscript::create_recovery_updates(
        &world.dkg(0).0.domain_and_key_map(),
        &x_r,
        3,
        rng,
    );
    assert_eq!(recovery.verify_recovery(&keys_map(&world), 4, &x_r), Ok(true));
    assert_eq!(recovery.verify_refresh(&keys_map(&world), 4), Err(Error::InvalidShareUpdate));
    // updates are applied in the order of the producers
    let share = UpdatableBlindedKeyShare::new(BlindedKeyShare {
        validator_public_key: world.validators[0].public_key.encryption_key.clone(),
        blinded_key_share: agg.0.aggregate.shares[0].clone(),
    });
    assert_eq!(
        share.apply_share_updates(&updates, 0).unwrap().0.blinded_key_share,
        refreshed.0.aggregate.shares[0]
    );
    assert_eq!(share.apply_share_updates(&updates, 9), Err(Error::InvalidShareIndex(9)));
}

/// After a handover of slot 2, the new key pair serves the slot.
#[test]
fn scenario_handover() {
    let rng = &mut test_rng();
    let world = make_world(rng, 4, 3);
    let agg = world.aggregate();
    let ct = encrypt(SecretBox::new(MSG.to_vec()), AAD, &agg.public_key(), rng).unwrap();
    let old_secret =
        combine_shares_simple(&(0..3).map(|i| world.simple_share(&agg, i, &ct, AAD)).collect::<Vec<_>>());

    let slot = 2u32;
    let incoming = Keypair::new(rng);
    let dkg = world.dkg(0);
    let handover = dkg.generate_handover_transcript(&agg, slot, &incoming).unwrap();
    assert_eq!(handover.0.share_index, 2);
    assert_eq!(handover.0.old_blinded_share, agg.0.aggregate.shares[2]);
    assert_eq!(handover.0.new_blinding_commitment, incoming.public_key().encryption_key);

    // the transcript is publicly verifiable against the share commitment
    let commitments =
        get_share_commitments_from_poly_commitments(&agg.0.aggregate.coeffs, dkg.0.domain_size());
    let commitment = ShareCommitment(commitments[2].clone());
    assert_eq!(handover.0.validate(&commitment), Ok(true));
    assert!(handover.0.verify(&commitment, &world.validators[2].public_key, &incoming.public_key()));
    assert!(!handover.0.verify(&commitment, &world.validators[1].public_key, &incoming.public_key()));

    let after = agg.0.aggregate.handover(&handover.0, &world.keypairs[2]).unwrap();
    // finalizing with the incoming key pair is refused
    assert_eq!(
        agg.0.aggregate.finalize_handover(&handover.0, &incoming).unwrap_err().to_string(),
        Error::ValidatorPublicKeyMismatch.to_string()
    );
    assert_eq!(
        agg.0.aggregate.handover(&handover.0, &world.keypairs[1]),
        Err(Error::ValidatorPublicKeyMismatch)
    );

    assert_eq!(after.coeffs, agg.0.aggregate.coeffs);
    assert_eq!(after.sigma, agg.0.aggregate.sigma);
    for i in 0..4 {
        if i == 2 {
            assert_ne!(after.shares[i], agg.0.aggregate.shares[i]);
        } else {
            assert_eq!(after.shares[i], agg.0.aggregate.shares[i]);
        }
    }

    // slots 0 and 1 with their key pairs, slot 2 with the new one
    let header = ct.header().unwrap();
    let mut shares = vec![];
    for i in 0..3usize {
        let keypair = if i == 2 { &incoming } else { &world.keypairs[i] };
        shares.push(
            after.create_decryption_share_simple(&header.0, AAD, keypair, i as u32).unwrap(),
        );
    }
    let lagrange = prepare_combine_simple(&dkg.domain_points()[..3]);
    let new_secret = SharedSecret(share_combine_simple(&shares, &lagrange));
    assert_eq!(new_secret, old_secret);
    assert_eq!(decrypt_with_shared_secret(&ct, AAD, &new_secret).unwrap(), MSG);

    // a transcript for another share than the slot's is refused
    let mut stale = handover.0.clone();
    stale.old_blinded_share = agg.0.aggregate.shares[1].clone();
    assert_eq!(
        agg.0.aggregate.handover(&stale, &world.keypairs[2]),
        Err(Error::InvalidShareUpdate)
    );
    let mut wrong = handover.0.clone();
    wrong.double_blinded_share = wrong.double_blinded_share.add(&G2Point::generator());
    assert_eq!(
        agg.0.aggregate.handover(&wrong, &world.keypairs[2]),
        Err(Error::InvalidShareUpdate)
    );
    assert_eq!(
        dkg.generate_handover_transcript(&agg, 4, &incoming).unwrap_err(),
        Error::InvalidShareIndex(4)
    );
    let direct = HandoverTranscript::new(
        2,
        &agg.0.aggregate.get_share_for_validator(&world.validators[2]).unwrap(),
        &world.validators[2].public_key,
        &incoming,
    );
    assert_eq!(direct, handover.0);
}

/// What is encoded decodes to itself, and wrong lengths are refused.
#[test]
fn wire_round_trips() {
    let rng = &mut test_rng();
    let world = make_world(rng, 8, 4);
    let transcript = &world.messages[0].1;
    let bytes = transcript.to_bytes().unwrap();
    assert_eq!(bytes.len(), 8 + 48 * 4 + 96 * 8 + 96);
    assert_eq!(&bytes[..4], &[4, 0, 0, 0]);
    assert_eq!(&bytes[4 + 48 * 4..8 + 48 * 4], &[8, 0, 0, 0]);
    assert_eq!(&PubliclyVerifiableSS::from_bytes(&bytes).unwrap(), transcript);
    assert_eq!(
        PubliclyVerifiableSS::<ferveo::pvss::Unaggregated>::from_bytes(&bytes[..bytes.len() - 1]),
        Err(Error::InvalidByteLength(bytes.len(), bytes.len() - 1))
    );
    assert_eq!(
        PubliclyVerifiableSS::<ferveo::pvss::Unaggregated>::from_bytes(&bytes[..3]),
        Err(Error::InvalidByteLength(4, 3))
    );
    assert_eq!(
        PubliclyVerifiableSS::<ferveo::pvss::Unaggregated>::from_bytes(&bytes[..100]),
        Err(Error::InvalidByteLength(8 + 48 * 4, 100))
    );

    let agg = world.aggregate();
    let agg_bytes = agg.0.aggregate.to_bytes().unwrap();
    assert_eq!(agg_bytes.len(), bytes.len());
    assert_eq!(
        PubliclyVerifiableSS::<ferveo::pvss::Aggregated>::from_bytes(&agg_bytes).unwrap(),
        agg.0.aggregate
    );

    let ct = encrypt(SecretBox::new(MSG.to_vec()), AAD, &agg.public_key(), rng).unwrap();
    let ct_bytes = ct.0.to_bytes().unwrap();
    assert_eq!(ferveo::ciphertext::Ciphertext::from_bytes(&ct_bytes).unwrap(), ct.0);
    assert_eq!(&ct_bytes[144..148], &[19, 0, 0, 0]);
    assert_eq!(
        ferveo::ciphertext::Ciphertext::from_bytes(&ct_bytes[..ct_bytes.len() - 1]),
        Err(Error::InvalidByteLength(ct_bytes.len(), ct_bytes.len() - 1))
    );

    let simple = world.simple_share(&agg, 1, &ct, AAD);
    let simple_bytes = simple.share.to_bytes();
    assert_eq!(simple_bytes.len(), 576 + 48);
    assert_eq!(
        ferveo::decryption::DecryptionShareSimple::from_bytes(&simple_bytes).unwrap(),
        simple.share
    );
    assert_eq!(
        ferveo::decryption::DecryptionShareSimple::from_bytes(&simple_bytes[1..]),
        Err(Error::InvalidByteLength(624, 623))
    );

    let precomputed = precomputed_shares(&world, &agg, &ct, &[1, 3, 5, 6]);
    let pre_bytes = precomputed[1].to_bytes();
    assert_eq!(pre_bytes.len(), 4 + 576 + 48);
    assert_eq!(&pre_bytes[..4], &[3, 0, 0, 0]);
    assert_eq!(DecryptionSharePrecomputed::from_bytes(&pre_bytes).unwrap(), precomputed[1]);

    let update = world.dkg(0).generate_refresh_transcript(rng).unwrap();
    let one = update.updates.get(3).unwrap();
    assert_eq!(&ShareUpdate::from_bytes(&one.to_bytes()).unwrap(), one);
    assert_eq!(one.to_bytes().len(), 144);

    let incoming = Keypair::new(rng);
    let handover = world.dkg(0).generate_handover_transcript(&agg, 5, &incoming).unwrap();
    let handover_bytes = handover.0.to_bytes();
    assert_eq!(handover_bytes.len(), 4 + 4 * 96);
    assert_eq!(HandoverTranscript::from_bytes(&handover_bytes).unwrap(), handover.0);

    let point = FieldPoint(Scalar::random(rng));
    let point_bytes = point.to_bytes().unwrap();
    assert_eq!(point_bytes.len(), 32);
    assert_eq!(FieldPoint::from_bytes(&point_bytes).unwrap(), point);
    assert_eq!(FieldPoint::from_bytes(&[0xff; 32]), Err(Error::DeserializationError));
    assert_eq!(FieldPoint::from_bytes(&[0; 31]), Err(Error::InvalidByteLength(32, 31)));
    // the modulus itself is not canonical, the value below it is
    let mut modulus = vec![
        0x01, 0x00, 0x00, 0x00, 0xff, 0xff, 0xff, 0xff, 0xfe, 0x5b, 0xfe, 0xff, 0x02, 0xa4, 0xbd,
        0x53, 0x05, 0xd8, 0xa1, 0x09, 0x08, 0xd8, 0x39, 0x33, 0x48, 0x7d, 0x9d, 0x29, 0x53, 0xa7,
        0xed, 0x73,
    ];
    assert_eq!(FieldPoint::from_bytes(&modulus), Err(Error::DeserializationError));
    modulus[0] = 0;
    assert!(FieldPoint::from_bytes(&modulus).is_ok());

    assert_eq!(GtElement::from_bytes(&[0xff; 576]), Err(Error::DeserializationError));
    assert_eq!(G1Point::from_bytes(&[0xff; 48]), Err(Error::DeserializationError));
    assert_eq!(G2Point::from_bytes(&[0; 96]), Err(Error::DeserializationError));
    assert_eq!(G2Point::from_bytes(&[0; 95]), Err(Error::InvalidByteLength(96, 95)));
}

/// The aggregate is verified against the messages it sums.
#[test]
fn aggregate_verification_names_its_errors() {
    let rng = &mut test_rng();
    let world = make_world(rng, 4, 3);
    let agg = world.aggregate();
    assert_eq!(agg.verify(4, &world.messages), Ok(true));
    assert_eq!(
        agg.verify(3, &world.messages),
        Err(Error::InvalidAggregateVerificationParameters(3, 4))
    );
    let mut repeated = world.messages.clone();
    repeated[3].0.share_index = 0;
    assert_eq!(agg.verify(4, &repeated), Err(Error::DuplicatedShareIndex(0)));
    let mut other = world.aggregate();
    other.0.aggregate.sigma = G2Point::generator();
    assert_eq!(other.verify(4, &world.messages), Err(Error::InvalidTranscriptAggregate));
    let mut other = world.aggregate();
    other.0.aggregate.shares[1] = G2Point::generator();
    assert_eq!(other.verify(4, &world.messages), Err(Error::InvalidTranscriptAggregate));
    // fewer transcripts than were summed
    assert_eq!(agg.verify(4, &world.messages[..3]), Err(Error::InvalidTranscriptAggregate));
    assert_eq!(
        AggregatedTranscript::new(&world.messages).unwrap().public_key(),
        agg.public_key()
    );
    assert_eq!(
        Dkg::new(TAU, 4, 5, &world.validators, &world.validators[0]).unwrap_err(),
        Error::InvalidDkgParameters(4, 5)
    );
    assert_eq!(world.dkg(2).me(), &world.validators[2]);
    assert_eq!(world.dkg(2).domain_points().len(), 4);
}

/// A zero decryption key has no inverse: no share is made with it.
#[test]
fn zero_keys_are_refused() {
    let rng = &mut test_rng();
    let world = make_world(rng, 4, 3);
    let agg = world.aggregate();
    let ct = encrypt(SecretBox::new(MSG.to_vec()), AAD, &agg.public_key(), rng).unwrap();
    let zero = Keypair::from_secret(Scalar::zero());
    assert_eq!(
        agg.0.aggregate.create_decryption_share_simple(&ct.header().unwrap().0, AAD, &zero, 0),
        Err(Error::ArithmeticError)
    );
    assert_eq!(
        agg.0.aggregate.create_decryption_share_simple(&ct.header().unwrap().0, AAD, &world.keypairs[0], 4),
        Err(Error::InvalidShareIndex(4))
    );
    assert_eq!(zero.public_key().encryption_key, G2Point::identity());
}
