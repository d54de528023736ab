use ferveo::ciphertext::{decrypt_with_shared_secret, encrypt, SecretBox};
use ferveo::combine::{share_combine_simple, SharedSecret};
use ferveo::curve::{G1Point, G2Point};
use ferveo::decryption::DecryptionShareSimple;
use ferveo::dkg::{DkgParams, PubliclyVerifiableDkg};
use ferveo::error::{Error, ThresholdEncryptionError};
use ferveo::fast::{
    batch_verify_decryption_shares, batch_verify_with_weights, generate_random, prepare_combine,
    share_combine, verify_decryption_shares_fast, DecryptionShareFast,
};
use ferveo::key_share::PrivateKeyShare;
use ferveo::poly::{make_random_polynomial_with_root, prepare_combine_simple};
use ferveo::pvss::{aggregate, PubliclyVerifiableSS};
use ferveo::recovery::{
    make_random_polynomial, recover_share_at_point, recover_share_with_polynomials,
    refresh_private_key_share, update_share_for_recovery,
};
use ferveo::scalar::Scalar;
use ferveo::setup::{setup, setup_simple};
use ferveo::validator::{EthereumAddress, Keypair, Validator};
use rand::rngs::StdRng;
use rand::SeedableRng;

fn test_rng() -> StdRng {
    StdRng::seed_from_u64(0x1e6ac7)
}

#[test]
fn decryption_decryption_share_serialization() {
    let decryption_share =
        DecryptionShareFast { decrypter_index: 1, decryption_share: G1Point::generator() };
    let serialized = decryption_share.to_bytes();
    let deserialized = DecryptionShareFast::from_bytes(&serialized).unwrap();
    assert_eq!(serialized, deserialized.to_bytes());
    assert_eq!(decryption_share, deserialized);
    assert_eq!(&serialized[..8], &[1, 0, 0, 0, 0, 0, 0, 0]);
    assert_eq!(&serialized[8..], &G1Point::generator().to_bytes()[..]);
}

#[test]
fn lib_decryption_share_serialization() {
    let decryption_share =
        DecryptionShareFast { decrypter_index: 1, decryption_share: G1Point::generator() };
    let serialized = decryption_share.to_bytes();
    let deserialized = DecryptionShareFast::from_bytes(&serialized).unwrap();
    assert_eq!(serialized, deserialized.to_bytes());
    assert_eq!(
        DecryptionShareFast::from_bytes(&serialized[..55]),
        Err(Error::InvalidByteLength(56, 55))
    );
    let mut bad = serialized.clone();
    bad[55] ^= 1;
    assert_eq!(DecryptionShareFast::from_bytes(&bad), Err(Error::DeserializationError));
}

#[test]
fn threshold_encryption() {
    let rng = &mut test_rng();
    let threshold = 16 * 2 / 3;
    let shares_num = 16;
    let msg: &[u8] = "abc".as_bytes();
    let aad: &[u8] = "my-aad".as_bytes();

    let dealt = setup(threshold, shares_num, rng).unwrap();
    let contexts = dealt.contexts;
    let mut ciphertext = encrypt(SecretBox::new(msg.to_vec()), aad, &dealt.public_key, rng).unwrap();

    let shares: Vec<DecryptionShareFast> =
        contexts.iter().map(|context| context.create_share(&ciphertext)).collect();
    assert!(verify_decryption_shares_fast(
        &contexts[0].public_decryption_contexts,
        &ciphertext,
        &shares
    ));

    let prepared_blinded_key_shares =
        prepare_combine(&contexts[0].public_decryption_contexts, &shares);
    let s = SharedSecret(share_combine(&shares, &prepared_blinded_key_shares));

    // So far, the ciphertext is valid
    let plaintext = decrypt_with_shared_secret(&ciphertext, aad, &s).unwrap();
    assert_eq!(plaintext, msg);

    // any threshold of the shares gives the same secret
    let some: Vec<DecryptionShareFast> = shares[3..3 + threshold].to_vec();
    let prepared = prepare_combine(&contexts[0].public_decryption_contexts, &some);
    assert_eq!(SharedSecret(share_combine(&some, &prepared)), s);

    // a share that is not the decrypter's is caught
    let mut bad_shares = shares.clone();
    bad_shares[2].decryption_share = bad_shares[2].decryption_share.add(&G1Point::generator());
    assert!(!verify_decryption_shares_fast(
        &contexts[0].public_decryption_contexts,
        &ciphertext,
        &bad_shares
    ));

    // Malformed the ciphertext
    ciphertext.ciphertext[0] = ciphertext.ciphertext[0].wrapping_add(1);
    assert!(decrypt_with_shared_secret(&ciphertext, aad, &s).is_err());

    // Malformed the AAD
    let aad = "bad aad".as_bytes();
    assert!(decrypt_with_shared_secret(&ciphertext, aad, &s).is_err());
}

#[test]
fn batch_verification_of_fast_shares() {
    let rng = &mut test_rng();
    let dealt = setup(3, 4, rng).unwrap();
    let contexts = dealt.contexts;
    let public = &contexts[0].public_decryption_contexts;
    let ciphertexts: Vec<_> = (0..3)
        .map(|i| encrypt(SecretBox::new(vec![i as u8; 5]), b"aad", &dealt.public_key, rng).unwrap())
        .collect();
    let shares: Vec<Vec<DecryptionShareFast>> = ciphertexts
        .iter()
        .map(|c| contexts.iter().map(|context| context.create_share(c)).collect())
        .collect();
    assert!(batch_verify_decryption_shares(public, &ciphertexts, &shares, rng));
    let weights: Vec<Vec<Scalar>> = (0..3).map(|_| generate_random(4, rng)).collect();
    assert!(batch_verify_with_weights(public, &ciphertexts, &shares, &weights));
    let mut bad = shares.clone();
    bad[1][2].decryption_share = bad[1][2].decryption_share.add(&G1Point::generator());
    assert!(!batch_verify_with_weights(public, &ciphertexts, &bad, &weights));
    assert!(!batch_verify_decryption_shares(public, &ciphertexts, &bad, rng));
}

#[test]
fn recovery_at_a_participants_point_gives_its_share() {
    let rng = &mut test_rng();
    let threshold = 3;
    let dealt = setup_simple(4, threshold, rng).unwrap();
    let contexts = dealt.contexts;
    for k in 0..4 {
        let x_r = contexts[k].public_decryption_contexts[k].domain.clone();
        let recovered = recover_share_at_point(&contexts, threshold, &x_r, rng);
        assert_eq!(recovered, contexts[k].private_key_share.0);
    }
    // with update polynomials that are all zero the shares are interpolated as they are
    let zero_polys: Vec<Vec<Scalar>> =
        (0..4).map(|_| vec![Scalar::zero(), Scalar::zero(), Scalar::zero()]).collect();
    let x = Scalar::zero();
    let at_zero = recover_share_with_polynomials(&contexts, &zero_polys, &x);
    assert_eq!(at_zero, dealt.private_key.0);
    let poly = make_random_polynomial(threshold, &x, rng);
    assert_eq!(poly.len(), 3);
    assert!(poly[0].is_zero());
    let x = Scalar::random(rng);
    let poly = make_random_polynomial_with_root(4, &x, rng);
    assert_eq!(poly.len(), 5);
    assert!(ferveo::poly::evaluate_polynomial(&poly, &x).is_zero());
}

fn gen_address(i: usize) -> EthereumAddress {
    EthereumAddress::from_str(&format!("0x{i:040}")).unwrap()
}

#[test]
fn operations_on_one_validators_share() {
    let rng = &mut test_rng();
    let keypairs: Vec<Keypair> = (0..4).map(|_| Keypair::new(rng)).collect();
    let validators: Vec<Validator> = keypairs
        .iter()
        .enumerate()
        .map(|(i, k)| Validator {
            address: gen_address(i),
            public_key: k.public_key(),
            share_index: i as u32,
        })
        .collect();
    let params = DkgParams::new(0, 3, 4).unwrap();
    let dkg = PubliclyVerifiableDkg::new(&validators, &params, &validators[0]).unwrap();
    let transcripts: Vec<PubliclyVerifiableSS> =
        (0..4).map(|_| dkg.generate_transcript(rng).unwrap()).collect();
    let agg = aggregate(&transcripts).unwrap();
    let ciphertext = encrypt(
        SecretBox::new(b"abc".to_vec()),
        b"aad",
        &ferveo::key_share::DkgPublicKey(agg.coeffs[0].clone()),
        rng,
    )
    .unwrap();
    let header = ciphertext.header().unwrap();

    for i in 0..4usize {
        let dk = &keypairs[i].decryption_key;
        let z = agg.decrypt_private_key_share(dk, i).unwrap();
        assert_eq!(z.0, agg.shares[i].mul(&dk.inverse().unwrap()));
        assert_eq!(
            agg.make_decryption_share_simple(&ciphertext, b"aad", dk, i).unwrap(),
            agg.create_decryption_share_simple(&header, b"aad", &keypairs[i], i as u32).unwrap()
        );
    }
    assert_eq!(
        agg.decrypt_private_key_share(&keypairs[0].decryption_key, 4),
        Err(Error::InvalidShareIndex(4))
    );
    assert_eq!(agg.decrypt_private_key_share(&Scalar::zero(), 0), Err(Error::ArithmeticError));
    assert_eq!(
        agg.make_decryption_share_simple(&ciphertext, b"bad", &keypairs[0].decryption_key, 0),
        Err(Error::CiphertextVerificationFailed)
    );

    let points = dkg.domain_points();
    let simple: Vec<DecryptionShareSimple> = (0..3)
        .map(|i| {
            agg.make_decryption_share_simple(&ciphertext, b"aad", &keypairs[i].decryption_key, i)
                .unwrap()
        })
        .collect();
    let secret = share_combine_simple(&simple, &prepare_combine_simple(&points[..3]));
    assert_eq!(decrypt_with_shared_secret(&ciphertext, b"aad", &secret).unwrap(), b"abc");

    // precomputed shares over the first three points multiply to the same secret
    let precomputed: Vec<_> = (0..3)
        .map(|i| {
            agg.make_decryption_share_simple_precomputed(
                &ciphertext,
                b"aad",
                &keypairs[i].decryption_key,
                i,
                &points[..3],
            )
            .unwrap()
        })
        .collect();
    assert_eq!(ferveo::combine::share_combine_precomputed(&precomputed), secret);

    // shares refreshed with one polynomial that vanishes at zero give the same secret
    let polynomial = make_random_polynomial_with_root(2, &Scalar::zero(), rng);
    let refreshed: Vec<DecryptionShareSimple> = (1..4)
        .map(|i| {
            agg.refresh_decryption_share(
                &ciphertext,
                b"aad",
                &keypairs[i].decryption_key,
                i,
                &polynomial,
                &dkg,
            )
            .unwrap()
        })
        .collect();
    assert_ne!(refreshed[0], simple[1]);
    assert_eq!(share_combine_simple(&refreshed, &prepare_combine_simple(&points[1..4])), secret);
    assert_eq!(
        agg.refresh_decryption_share(&ciphertext, b"aad", &keypairs[0].decryption_key, 7, &polynomial, &dkg),
        Err(Error::InvalidShareIndex(7))
    );

    let z = agg.decrypt_private_key_share(&keypairs[0].decryption_key, 0).unwrap();
    let y = ferveo::poly::evaluate_polynomial(&polynomial, &points[0]);
    assert_eq!(
        refresh_private_key_share(&G2Point::generator(), &points[0], &polynomial, &z).0,
        z.0.add(&G2Point::generator().mul(&y))
    );
    let updates = vec![G2Point::generator(), G2Point::generator().mul(&y)];
    let updated = agg
        .update_private_key_share_for_recovery(&keypairs[0].decryption_key, 0, &updates)
        .unwrap();
    assert_eq!(updated.0, z.0.add(&updates[0]).add(&updates[1]));
    assert_eq!(update_share_for_recovery(&PrivateKeyShare(z.0.clone()), &[]).0, z.0);
}

#[test]
fn error_messages() {
    assert_eq!(Error::CiphertextVerificationFailed.to_string(), "Ciphertext verification failed");
    assert_eq!(
        Error::InvalidDkgParameters(4, 5).to_string(),
        "Invalid DKG parameters: number of shares 4, threshold 5"
    );
    assert_eq!(
        Error::InsufficientValidators(3, 4).to_string(),
        "Not enough validators (expected 3, got 4)"
    );
    assert_eq!(
        Error::InvalidByteLength(48, 4294967295).to_string(),
        "Invalid byte length. Expected 48, got 4294967295"
    );
    assert_eq!(Error::InvalidShareIndex(120).to_string(), "Invalid share index: 120");
    assert_eq!(
        Error::InvalidAggregateVerificationParameters(3, 10).to_string(),
        "Invalid aggregate verification parameters: number of validators 3, number of messages: 10"
    );
    assert_eq!(Error::TooManyTranscripts(4, 5).to_string(), "Too many transcripts. Expected: 4, got: 5");
    assert_eq!(
        Error::InvalidVariant("x".to_string()).to_string(),
        "Invalid variant: x"
    );
    assert_eq!(Error::NoTranscriptsToAggregate.to_string(), "No transcripts to aggregate");
    assert_eq!(Error::InvalidShareUpdate.to_string(), "Invalid share update");
    assert_eq!(Error::ValidatorPublicKeyMismatch.to_string(), "Validator public key mismatch");
    assert_eq!(Error::SymmetricEncryptionError.to_string(), "Symmetric encryption failed");
    assert_eq!(
        Error::DecryptionShareVerificationFailed.to_string(),
        "Decryption share verification failed"
    );
    assert_eq!(
        Error::UnknownDealer("0x01".to_string()).to_string(),
        "DKG received an unknown dealer: 0x01"
    );
    assert_eq!(
        ThresholdEncryptionError::HashToCurveError.to_string(),
        "Could not hash to curve"
    );
    assert_eq!(ferveo::error::decimal(0), "0");
    assert_eq!(ferveo::error::decimal(u64::MAX), "18446744073709551615");
}

#[test]
fn records_of_a_dump_are_parsed() {
    use_debug_records();
}

fn use_debug_records() {
    let rng = &mut test_rng();
    let keypair = Keypair::new(rng);
    let validators = vec![Validator {
        address: gen_address(0),
        public_key: keypair.public_key(),
        share_index: 0,
    }];
    let params = DkgParams::new(0, 1, 1).unwrap();
    let dkg = PubliclyVerifiableDkg::new(&validators, &params, &validators[0]).unwrap();
    let transcript = dkg.generate_transcript(rng).unwrap();
    let hex = |bytes: &[u8]| -> String { bytes.iter().map(|b| format!("{b:02X}")).collect() };
    let key_hex = hex(&keypair.public_key().encryption_key.to_bytes());
    let transcript_hex = hex(&transcript.to_bytes().unwrap()).to_lowercase();
    let address = "0x0000000000000000000000000000000000000000";
    let record =
        ferveo::debug::parse_record(address, key_hex.as_bytes(), transcript_hex.as_bytes())
            .unwrap();
    assert_eq!(record.validator_address, gen_address(0));
    assert_eq!(record.validator_pk, keypair.public_key());
    assert_eq!(record.transcript, transcript);
    assert_eq!(
        ferveo::debug::parse_record(address, b"0g", transcript_hex.as_bytes()),
        Err(ferveo::debug::RecordError::InvalidHex)
    );
    assert_eq!(
        ferveo::debug::parse_record(address, b"abc", transcript_hex.as_bytes()),
        Err(ferveo::debug::RecordError::InvalidHex)
    );
    assert_eq!(
        ferveo::debug::parse_record("0x00", key_hex.as_bytes(), transcript_hex.as_bytes()),
        Err(ferveo::debug::RecordError::InvalidAddressLength(4))
    );
    assert_eq!(
        ferveo::debug::parse_record(address, b"00ff", transcript_hex.as_bytes()),
        Err(ferveo::debug::RecordError::InvalidKeyLength(2))
    );
    assert_eq!(
        ferveo::debug::parse_record(address, key_hex.as_bytes(), b"0000"),
        Err(ferveo::debug::RecordError::InvalidTranscript(Error::InvalidByteLength(4, 2)))
    );
    assert_eq!(ferveo::debug::decode_hex(b"00fFa1"), Some(vec![0x00, 0xff, 0xa1]));
    assert_eq!(ferveo::debug::decode_hex(b""), Some(vec![]));
}
