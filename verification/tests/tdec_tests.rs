use ferveo::ciphertext::{
    decrypt_symmetric, decrypt_with_shared_secret, encrypt, encrypt_with_exponent, Ciphertext,
    SecretBox,
};
use ferveo::combine::{share_combine_precomputed, share_combine_simple, SharedSecret};
use ferveo::curve::{pairing, G1Point, G2Point};
use ferveo::decryption::{
    verify_decryption_shares_simple, DecryptionSharePrecomputed, DecryptionShareSimple,
};
use ferveo::domain::{domain_elements, domain_generator};
use ferveo::error::Error;
use ferveo::poly::{evaluate_polynomial, lagrange_basis_at, prepare_combine_simple};
use ferveo::scalar::Scalar;
use ferveo::setup::{create_shared_secret_simple, setup_precomputed, setup_simple, DealtSetup};
use rand::rngs::StdRng;
use rand::SeedableRng;

fn test_rng() -> StdRng {
    StdRng::seed_from_u64(0xfe57e0)
}

fn check_ciphertext_validation_fails(
    msg: &[u8],
    aad: &[u8],
    ciphertext: &Ciphertext,
    shared_secret: &SharedSecret,
) {
    // So far, the ciphertext is valid
    let plaintext = decrypt_with_shared_secret(ciphertext, aad, shared_secret).unwrap();
    assert_eq!(plaintext, msg);

    // Malformed the ciphertext
    let mut ciphertext = ciphertext.clone();
    ciphertext.ciphertext[0] = ciphertext.ciphertext[0].wrapping_add(1);
    assert!(decrypt_with_shared_secret(&ciphertext, aad, shared_secret).is_err());

    // Malformed the AAD
    let aad = "bad aad".as_bytes();
    assert!(decrypt_with_shared_secret(&ciphertext, aad, shared_secret).is_err());
}

#[test]
fn combine_test_lagrange() {
    let generator = domain_generator(512);
    let mut domain = Vec::with_capacity(500);
    let mut point = Scalar::one();
    for _ in 0..500 {
        domain.push(point.clone());
        point = point.mul(&generator);
    }
    let at_500 = domain_elements(512, 500);
    assert_eq!(domain, at_500);
    let lagrange = prepare_combine_simple(&domain[..40]);
    assert_eq!(lagrange.len(), 40);
}

#[test]
fn lagrange_coefficients_interpolate_at_zero() {
    // f(x) = 5 + 3x + 2x^2 at the points 1, 2, 3
    let s = |n: u8| {
        let mut bytes = vec![0u8; 32];
        bytes[0] = n;
        Scalar::from_bytes(&bytes).unwrap()
    };
    let poly = vec![s(5), s(3), s(2)];
    let xs = vec![s(1), s(2), s(3)];
    let ys: Vec<Scalar> = xs.iter().map(|x| evaluate_polynomial(&poly, x)).collect();
    assert!(ys[0].equals(&s(10)));
    assert!(ys[1].equals(&s(19)));
    assert!(ys[2].equals(&s(32)));
    let coeffs = prepare_combine_simple(&xs);
    // the basis at zero over 1, 2, 3 is 3, -3, 1
    assert!(coeffs[0].equals(&s(3)));
    assert!(coeffs[1].equals(&Scalar::zero().sub(&s(3))));
    assert!(coeffs[2].equals(&s(1)));
    let mut acc = Scalar::zero();
    for (c, y) in coeffs.iter().zip(ys.iter()) {
        acc = acc.add(&c.mul(y));
    }
    assert!(acc.equals(&s(5)));
    // a repeated point contributes nothing to the other's coefficient
    let with_repeat = lagrange_basis_at(&[s(1), s(1), s(2)], &Scalar::zero());
    assert!(with_repeat[0].equals(&with_repeat[1]));
    assert!(with_repeat[0].equals(&s(2)));
}

#[test]
fn lib_ciphertext_serialization() {
    let rng = &mut test_rng();
    let shares_num = 16;
    let threshold = shares_num * 2 / 3;
    let msg = "my-msg".as_bytes().to_vec();
    let aad: &[u8] = "my-aad".as_bytes();

    let setup = setup_simple(threshold, shares_num, rng).unwrap();
    let ciphertext = encrypt(SecretBox::new(msg), aad, &setup.public_key, rng).unwrap();

    let serialized = ciphertext.to_bytes().unwrap();
    let deserialized = Ciphertext::from_bytes(&serialized).unwrap();
    assert_eq!(serialized, deserialized.to_bytes().unwrap());
    assert_eq!(ciphertext, deserialized);
    assert_eq!(serialized.len(), 48 + 96 + 4 + ciphertext.ciphertext.len());
}

#[test]
fn tdec_simple_variant_share_validation() {
    let rng = &mut test_rng();
    let shares_num = 16;
    let threshold = shares_num * 2 / 3;
    let msg = "my-msg".as_bytes().to_vec();
    let aad: &[u8] = "my-aad".as_bytes();

    let DealtSetup { public_key, contexts, .. } = setup_simple(shares_num, threshold, rng).unwrap();
    let ciphertext = encrypt(SecretBox::new(msg), aad, &public_key, rng).unwrap();

    let bad_aad = "bad aad".as_bytes();
    assert!(contexts[0].create_share(&ciphertext.header().unwrap(), bad_aad).is_err());
    assert_eq!(
        contexts[0].create_share(&ciphertext.header().unwrap(), bad_aad),
        Err(Error::CiphertextVerificationFailed)
    );
}

#[test]
fn tdec_simple_variant_e2e() {
    let rng = &mut test_rng();
    let shares_num = 16;
    let threshold = shares_num * 2 / 3;
    let msg = "my-msg".as_bytes().to_vec();
    let aad: &[u8] = "my-aad".as_bytes();

    let DealtSetup { public_key, contexts, .. } = setup_simple(shares_num, threshold, rng).unwrap();
    let ciphertext = encrypt(SecretBox::new(msg.clone()), aad, &public_key, rng).unwrap();

    // We need at least threshold shares to decrypt
    let decryption_shares: Vec<_> = contexts
        .iter()
        .map(|c| c.create_share(&ciphertext.header().unwrap(), aad).unwrap())
        .take(threshold)
        .collect();
    let selected_contexts = contexts[0].public_decryption_contexts[..threshold].to_vec();
    let shared_secret = create_shared_secret_simple(&selected_contexts, &decryption_shares);

    check_ciphertext_validation_fails(&msg, aad, &ciphertext, &shared_secret);

    // If we use less than threshold shares, we should fail
    let not_enough_dec_shares = decryption_shares[..threshold - 1].to_vec();
    let not_enough_contexts = selected_contexts[..threshold - 1].to_vec();
    let bad_shared_secret = create_shared_secret_simple(&not_enough_contexts, &not_enough_dec_shares);
    let result = decrypt_with_shared_secret(&ciphertext, aad, &bad_shared_secret);
    assert!(result.is_err());
    assert_eq!(result, Err(Error::SymmetricEncryptionError));
}

#[test]
fn tdec_precomputed_variant_e2e() {
    let rng = &mut test_rng();
    let shares_num = 16;
    let threshold = shares_num * 2 / 3;
    let msg = "my-msg".as_bytes().to_vec();
    let aad: &[u8] = "my-aad".as_bytes();

    let DealtSetup { public_key, contexts, .. } =
        setup_precomputed(shares_num, threshold, rng).unwrap();
    let ciphertext = encrypt(SecretBox::new(msg.clone()), aad, &public_key, rng).unwrap();

    let selected_participants: Vec<usize> = (0..threshold).collect();
    let selected_contexts: Vec<_> = contexts
        .iter()
        .filter(|c| selected_participants.contains(&c.index))
        .collect();

    let decryption_shares: Vec<DecryptionSharePrecomputed> = selected_contexts
        .iter()
        .map(|context| {
            context
                .create_share_precomputed(
                    &ciphertext.header().unwrap(),
                    aad,
                    &selected_participants,
                )
                .unwrap()
        })
        .collect();

    let shared_secret = share_combine_precomputed(&decryption_shares);
    check_ciphertext_validation_fails(&msg, aad, &ciphertext, &shared_secret);

    // If we use less than threshold shares, we should fail
    let not_enough_dec_shares = decryption_shares[..threshold - 1].to_vec();
    let bad_shared_secret = share_combine_precomputed(&not_enough_dec_shares);
    let result = decrypt_with_shared_secret(&ciphertext, aad, &bad_shared_secret);
    assert!(result.is_err());
}

#[test]
fn tdec_simple_variant_share_verification() {
    let rng = &mut test_rng();
    let shares_num = 16;
    let threshold = shares_num * 2 / 3;
    let msg = "my-msg".as_bytes().to_vec();
    let aad: &[u8] = "my-aad".as_bytes();

    let DealtSetup { public_key, contexts, .. } = setup_simple(shares_num, threshold, rng).unwrap();
    let ciphertext = encrypt(SecretBox::new(msg), aad, &public_key, rng).unwrap();

    let decryption_shares: Vec<DecryptionShareSimple> = contexts
        .iter()
        .map(|c| c.create_share(&ciphertext.header().unwrap(), aad).unwrap())
        .collect();

    let pub_contexts = &contexts[0].public_decryption_contexts;
    assert!(verify_decryption_shares_simple(pub_contexts, &ciphertext, &decryption_shares));

    // Now, let's test that verification fails if one of the decryption shares is invalid.
    let mut has_bad_checksum = decryption_shares[0].clone();
    has_bad_checksum.validator_checksum.checksum =
        has_bad_checksum.validator_checksum.checksum.mul(&Scalar::random(rng));
    assert!(!has_bad_checksum.verify(
        &pub_contexts[0].blinded_key_share.blinded_key_share,
        &pub_contexts[0].validator_public_key.encryption_key,
        &ciphertext,
    ));

    let mut has_bad_share = decryption_shares[0].clone();
    let factor = pairing(&G1Point::generator().mul(&Scalar::random(rng)), &G2Point::generator());
    has_bad_share.decryption_share = has_bad_share.decryption_share.mul(&factor);
    assert!(!has_bad_share.verify(
        &pub_contexts[0].blinded_key_share.blinded_key_share,
        &pub_contexts[0].validator_public_key.encryption_key,
        &ciphertext,
    ));

    let mut shares_with_bad = decryption_shares.clone();
    shares_with_bad[3] = has_bad_share;
    assert!(!verify_decryption_shares_simple(pub_contexts, &ciphertext, &shares_with_bad));
}

#[test]
fn symmetric_encryption() {
    let rng = &mut test_rng();
    let threshold = 3;
    let shares_num = 5;
    let msg: &[u8] = "abc".as_bytes();
    let aad: &[u8] = "my-aad".as_bytes();

    let setup = setup_simple(shares_num, threshold, rng).unwrap();
    let ciphertext = encrypt(SecretBox::new(msg.to_vec()), aad, &setup.public_key, rng).unwrap();
    let plaintext = decrypt_symmetric(&ciphertext, aad, &setup.private_key).unwrap();
    assert_eq!(msg, plaintext);
}

#[test]
fn ciphertext_validity_check() {
    let rng = &mut test_rng();
    let threshold = 3;
    let shares_num = 5;
    let msg: &[u8] = "abc".as_bytes();
    let aad: &[u8] = "my-aad".as_bytes();

    let setup = setup_simple(shares_num, threshold, rng).unwrap();
    let mut ciphertext =
        encrypt(SecretBox::new(msg.to_vec()), aad, &setup.public_key, rng).unwrap();

    // So far, the ciphertext is valid
    assert!(ciphertext.check(aad).is_ok());

    // Malformed the ciphertext
    ciphertext.ciphertext[0] = ciphertext.ciphertext[0].wrapping_add(1);
    assert!(ciphertext.check(aad).is_err());

    // Malformed the AAD
    let aad = "bad aad".as_bytes();
    assert!(ciphertext.check(aad).is_err());
}

#[test]
fn simple_threshold_setup_and_complete_flow_from_scratch() {
    let rng = &mut test_rng();
    let threshold = 16 * 2 / 3;
    let shares_num = 16;
    let msg: &[u8] = "abc".as_bytes();
    let aad: &[u8] = "my-aad".as_bytes();

    let DealtSetup { public_key, contexts, .. } = setup_simple(shares_num, threshold, rng).unwrap();
    let ciphertext = encrypt(SecretBox::new(msg.to_vec()), aad, &public_key, rng).unwrap();

    // Creating decryption shares
    let shares: Vec<DecryptionShareSimple> = contexts
        .iter()
        .map(|context| {
            DecryptionShareSimple::create_unchecked(
                &context.setup_params.b,
                &context.private_key_share,
                &ciphertext.header().unwrap(),
            )
            .unwrap()
        })
        .collect();
    for (share, context) in shares.iter().zip(contexts.iter()) {
        assert_eq!(
            share.decryption_share,
            pairing(&ciphertext.commitment, &context.private_key_share.0)
        );
    }

    let domain: Vec<Scalar> =
        contexts[0].public_decryption_contexts.iter().map(|c| c.domain.clone()).collect();
    let lagrange = prepare_combine_simple(&domain);
    let s = share_combine_simple(&shares, &lagrange);

    let plaintext = decrypt_with_shared_secret(&ciphertext, aad, &s).unwrap();
    assert_eq!(plaintext, msg);
}

#[test]
fn encryption_is_a_function_of_the_exponent() {
    let rng = &mut test_rng();
    let setup = setup_simple(4, 3, rng).unwrap();
    let r = Scalar::random(rng);
    let msg = SecretBox::new(b"abc".to_vec());
    let a = encrypt_with_exponent(&msg, b"aad", &setup.public_key, &r).unwrap();
    let b = encrypt_with_exponent(&msg, b"aad", &setup.public_key, &r).unwrap();
    assert_eq!(a, b);
    assert_eq!(a.commitment, G1Point::generator().mul(&r));
    // the payload is the message and a sixteen byte tag
    assert_eq!(a.ciphertext.len(), 3 + 16);
    assert_ne!(&a.ciphertext[..3], b"abc");
    let other = encrypt_with_exponent(&msg, b"aad", &setup.public_key, &r.add(&Scalar::one())).unwrap();
    assert_ne!(a, other);
}
