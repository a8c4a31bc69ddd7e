//! Unit tests for hashing, shares, index checking, DLEQ proofs and the
//! pairing checks.

use dvrf::combine::{check_indices, get_group_public_key, get_public_key, keygen,
    verify_public_coeffs};
use dvrf::curve::{hash_to_curve, G1Point};
use dvrf::dkg::{DkgShareKey, PartialEval};
use dvrf::errors::Error;
use dvrf::field::Scalar;
use dvrf::poly::{evaluate_poly, get_shares};
use rand_chacha::ChaCha20Rng;
use rand_core::SeedableRng;

#[test]
fn test_hash_to_curve() {
    let h = hash_to_curve("another generator", b"second generator h");
    // Decoding succeeds exactly for on-curve points.
    let decoded = G1Point::from_bytes(&h.to_bytes());
    assert!(decoded.is_some());
    assert_eq!(decoded.unwrap().to_bytes(), h.to_bytes());
}

#[test]
fn test_hash_to_curve_domains_and_determinism() {
    let a = hash_to_curve("domain one", b"input");
    let b = hash_to_curve("domain two", b"input");
    let c = hash_to_curve("domain one", b"input");
    assert_ne!(a.to_bytes(), b.to_bytes());
    assert_eq!(a.to_bytes(), c.to_bytes());
    let d = hash_to_curve("domain one", b"other input");
    assert_ne!(a.to_bytes(), d.to_bytes());
}

#[test]
fn test_partial_evaluation() {
    let mut rng = ChaCha20Rng::seed_from_u64(42);
    let index = 1;
    let (sk, vk) = keygen(&mut rng);
    let key = DkgShareKey::<9, 16>::new(index, sk, vk.clone());
    let x = b"the first random 20230626";
    let sigma = key.evaluate(x, &mut rng);
    sigma.verify(x, &vk).unwrap();
}

#[test]
fn test_scalar_encoding() {
    // The canonical encoding is 32-byte little-endian.
    let five = Scalar::from_u64(5);
    let bytes = five.to_bytes();
    assert_eq!(bytes.len(), 32);
    assert_eq!(bytes[0], 5);
    assert!(bytes[1..].iter().all(|b| *b == 0));
    // Round trip through decoding.
    let again = Scalar::from_bytes(&bytes).unwrap();
    assert_eq!(again.to_bytes(), bytes);
    // A value at or above the field order is rejected.
    assert!(Scalar::from_bytes(&[0xffu8; 32]).is_none());
    assert!(Scalar::from_bytes(&[1u8; 31]).is_none());
}

#[test]
fn test_generator_encoding() {
    // g^1 is the generator (1, 2): x = 1 little-endian, sign bits clear.
    let g = get_public_key(Scalar::from_u64(1));
    let mut expected = vec![0u8; 32];
    expected[0] = 1;
    assert_eq!(g.to_bytes(), expected);
    // Point decoding accepts the generator and rejects a wrong length.
    assert!(G1Point::from_bytes(&expected).is_some());
    assert!(G1Point::from_bytes(&expected[..31]).is_none());
    // Different exponents give different points.
    let g2 = get_public_key(Scalar::from_u64(2));
    assert_ne!(g.to_bytes(), g2.to_bytes());
}

#[test]
fn test_point_decoding_canonicalizes() {
    // The identity point admits a redundant encoding (the sign bit set
    // alongside the infinity bit); decoding stores the canonical form.
    let mut redundant = vec![0u8; 32];
    redundant[31] = 0xc0;
    let p = G1Point::from_bytes(&redundant).unwrap();
    let mut canonical = vec![0u8; 32];
    canonical[31] = 0x80;
    assert_eq!(p.to_bytes(), canonical);
    // A canonical encoding is stored as it is.
    let q = G1Point::from_bytes(&canonical).unwrap();
    assert_eq!(q.to_bytes(), canonical);
}

#[test]
fn test_share_values() {
    // f(X) = 1 + 2 X + 3 X^2.
    let coeffs = vec![Scalar::from_u64(1), Scalar::from_u64(2), Scalar::from_u64(3)];
    let shares = get_shares::<3, 5>(&coeffs);
    assert_eq!(shares.len(), 5);
    // shares[0] = f(1) = sum of the coefficients = 6.
    assert_eq!(shares[0].to_bytes(), Scalar::from_u64(6).to_bytes());
    assert_eq!(shares[1].to_bytes(), Scalar::from_u64(17).to_bytes());
    assert_eq!(shares[2].to_bytes(), Scalar::from_u64(34).to_bytes());
    assert_eq!(shares[3].to_bytes(), Scalar::from_u64(57).to_bytes());
    assert_eq!(shares[4].to_bytes(), Scalar::from_u64(86).to_bytes());
    // Horner evaluation agrees.
    assert_eq!(evaluate_poly(&coeffs, 4).to_bytes(), Scalar::from_u64(57).to_bytes());
}

#[test]
fn test_share_sum_random_coefficients() {
    // The first share equals f(1) for random coefficients too.
    let mut rng = ChaCha20Rng::seed_from_u64(7);
    let coeffs: Vec<Scalar> = (0..4).map(|_| Scalar::random(&mut rng)).collect();
    let shares = get_shares::<4, 6>(&coeffs);
    assert_eq!(shares[0].to_bytes(), evaluate_poly(&coeffs, 1).to_bytes());
    for i in 1..=6usize {
        assert_eq!(shares[i - 1].to_bytes(), evaluate_poly(&coeffs, i).to_bytes());
    }
}

#[test]
fn test_check_indices() {
    assert!(check_indices::<6>(&[1, 2, 3]).is_ok());
    assert!(check_indices::<6>(&[1, 3, 6]).is_ok());
    assert!(check_indices::<6>(&[]).is_ok());
    // A duplicate or a disorder is an order violation at its position.
    assert_eq!(check_indices::<6>(&[2, 2, 3]), Err(Error::InvalidOrder { index: 0 }));
    assert_eq!(check_indices::<6>(&[1, 4, 3]), Err(Error::InvalidOrder { index: 1 }));
    // An out-of-range index is reported with its value.
    assert_eq!(check_indices::<6>(&[0, 2]), Err(Error::InvalidIndex { index: 0 }));
    assert_eq!(check_indices::<6>(&[5, 7]), Err(Error::InvalidIndex { index: 7 }));
    // The order check at a position precedes its range check.
    assert_eq!(check_indices::<6>(&[7, 3]), Err(Error::InvalidOrder { index: 0 }));
}

#[test]
fn test_share_key_verify() {
    let mut rng = ChaCha20Rng::seed_from_u64(11);
    let keys: Vec<(Scalar, G1Point)> = (0..4).map(|_| keygen(&mut rng)).collect();
    let vks: Vec<G1Point> = keys.iter().map(|(_, vk)| vk.clone()).collect();
    let (sk0, vk0) = keygen(&mut rng);

    let good = DkgShareKey::<2, 4>::new(2, keys[1].0.clone(), keys[1].1.clone());
    assert!(good.verify(&vks).is_ok());

    let out_low = DkgShareKey::<2, 4>::new(0, sk0.clone(), vk0.clone());
    assert_eq!(out_low.verify(&vks), Err(Error::InvalidIndex { index: 0 }));
    let out_high = DkgShareKey::<2, 4>::new(5, sk0.clone(), vk0.clone());
    assert_eq!(out_high.verify(&vks), Err(Error::InvalidIndex { index: 5 }));

    let mismatched = DkgShareKey::<2, 4>::new(2, sk0, vk0);
    assert_eq!(mismatched.verify(&vks), Err(Error::VerifyFailed));
}

#[test]
fn test_partial_eval_invalid_index() {
    let mut rng = ChaCha20Rng::seed_from_u64(13);
    let (sk, vk) = keygen(&mut rng);
    let key = DkgShareKey::<4, 6>::new(1, sk, vk.clone());
    let x = b"an input";
    let sigma = key.evaluate(x, &mut rng);

    // index = 0 and index = n + 1 are both out of range.
    let zero = PartialEval::<4, 6>::new(
        0,
        sigma.get_value().clone(),
        sigma.get_z().clone(),
        sigma.get_c().clone(),
    );
    assert_eq!(zero.verify(x, &vk), Err(Error::InvalidIndex { index: 0 }));
    let high = PartialEval::<4, 6>::new(
        7,
        sigma.get_value().clone(),
        sigma.get_z().clone(),
        sigma.get_c().clone(),
    );
    assert_eq!(high.verify(x, &vk), Err(Error::InvalidIndex { index: 7 }));
}

#[test]
fn test_partial_eval_tampering() {
    let mut rng = ChaCha20Rng::seed_from_u64(17);
    let (sk, vk) = keygen(&mut rng);
    let key = DkgShareKey::<4, 6>::new(3, sk, vk.clone());
    let x = b"an input";
    let sigma = key.evaluate(x, &mut rng);
    assert!(sigma.verify(x, &vk).is_ok());

    // One byte of c flipped: the challenge no longer matches.
    let mut c_bytes = sigma.get_c().to_bytes();
    c_bytes[0] ^= 1;
    let bad_c = Scalar::from_bytes(&c_bytes).unwrap();
    let tampered_c = PartialEval::<4, 6>::new(
        sigma.get_index(),
        sigma.get_value().clone(),
        sigma.get_z().clone(),
        bad_c,
    );
    assert_eq!(tampered_c.verify(x, &vk), Err(Error::VerifyFailed));

    // One byte of z flipped.
    let mut z_bytes = sigma.get_z().to_bytes();
    z_bytes[0] ^= 1;
    let bad_z = Scalar::from_bytes(&z_bytes).unwrap();
    let tampered_z = PartialEval::<4, 6>::new(
        sigma.get_index(),
        sigma.get_value().clone(),
        bad_z,
        sigma.get_c().clone(),
    );
    assert_eq!(tampered_z.verify(x, &vk), Err(Error::VerifyFailed));

    // A wrong evaluation point.
    let (_, other_point) = keygen(&mut rng);
    let tampered_v = PartialEval::<4, 6>::new(
        sigma.get_index(),
        other_point,
        sigma.get_z().clone(),
        sigma.get_c().clone(),
    );
    assert_eq!(tampered_v.verify(x, &vk), Err(Error::VerifyFailed));

    // A different input.
    assert_eq!(sigma.verify(b"another input", &vk), Err(Error::VerifyFailed));

    // A different verification key.
    let (_, other_vk) = keygen(&mut rng);
    assert_eq!(sigma.verify(x, &other_vk), Err(Error::VerifyFailed));
}

#[test]
fn test_public_coeffs() {
    // e(g, g2^a) == e(g^a, g2) exactly when the exponents agree.
    let a = Scalar::from_u64(5);
    let ga = get_public_key(a.clone());
    let g2a = get_group_public_key(&a);
    assert!(verify_public_coeffs(ga.clone(), g2a).is_ok());

    let b = Scalar::from_u64(7);
    let g2b = get_group_public_key(&b);
    assert_eq!(verify_public_coeffs(ga, g2b), Err(Error::VerifyFailed));
}
