//! End-to-end beacon rounds: shares, partial evaluations, combination and
//! verification, including the independence of the output from the subset
//! chosen.

use dvrf::combine::{combine_partial_evaluations, get_group_public_key, get_public_key,
    PseudoRandom};
use dvrf::curve::G1Point;
use dvrf::dkg::{DkgShareKey, PartialEval};
use dvrf::errors::Error;
use dvrf::field::Scalar;
use dvrf::poly::get_shares;
use rand_chacha::ChaCha20Rng;
use rand_core::SeedableRng;

fn setup<const THRESHOLD: usize, const NUMBER_OF_MEMBERS: usize>(
    rng: &mut ChaCha20Rng,
) -> (Vec<Scalar>, Vec<DkgShareKey<THRESHOLD, NUMBER_OF_MEMBERS>>, Vec<G1Point>) {
    let coeffs: Vec<Scalar> = (0..THRESHOLD).map(|_| Scalar::random(rng)).collect();
    let shares = get_shares::<THRESHOLD, NUMBER_OF_MEMBERS>(&coeffs);
    let keys: Vec<DkgShareKey<THRESHOLD, NUMBER_OF_MEMBERS>> = shares
        .iter()
        .enumerate()
        .map(|(i, s)| DkgShareKey::new(i + 1, s.clone(), get_public_key(s.clone())))
        .collect();
    let vks: Vec<G1Point> = keys.iter().map(|k| k.get_verification_key()).collect();
    (coeffs, keys, vks)
}

fn pseudo_random<const THRESHOLD: usize, const NUMBER_OF_MEMBERS: usize>() {
    let mut rng = ChaCha20Rng::seed_from_u64(42);
    let (coeffs, keys, vks) = setup::<THRESHOLD, NUMBER_OF_MEMBERS>(&mut rng);
    let gpk = get_group_public_key(&coeffs[0]);
    let input = b"test first random";

    let evals: Vec<PartialEval<THRESHOLD, NUMBER_OF_MEMBERS>> =
        keys.iter().map(|key| key.evaluate(input, &mut rng)).collect();

    let res = evals.iter().zip(vks.iter()).all(|(e, vk)| e.verify(input, vk).is_ok());
    assert!(res);

    let pseudo_random = combine_partial_evaluations(&evals[0..THRESHOLD]).unwrap();
    pseudo_random.verify(input, &gpk).unwrap();

    // Combining a different size-t subset yields the same output.
    let other = combine_partial_evaluations(&evals[NUMBER_OF_MEMBERS - THRESHOLD..]).unwrap();
    assert_eq!(other.get_sigma().to_bytes(), pseudo_random.get_sigma().to_bytes());
    assert_eq!(other.get_random(), pseudo_random.get_random());
}

#[test]
fn test_pseudo_random() {
    pseudo_random::<4, 6>();
    pseudo_random::<7, 13>();
    pseudo_random::<14, 27>();
    pseudo_random::<28, 55>();
    pseudo_random::<57, 112>();
}

fn dup_eval<const THRESHOLD: usize, const NUMBER_OF_MEMBERS: usize>(
    e: &PartialEval<THRESHOLD, NUMBER_OF_MEMBERS>,
) -> PartialEval<THRESHOLD, NUMBER_OF_MEMBERS> {
    PartialEval::new(e.get_index(), e.get_value().clone(), e.get_z().clone(), e.get_c().clone())
}

fn combine_subset<const THRESHOLD: usize, const NUMBER_OF_MEMBERS: usize>(
    evals: &[PartialEval<THRESHOLD, NUMBER_OF_MEMBERS>],
    picks: &[usize],
) -> PseudoRandom {
    let subset: Vec<PartialEval<THRESHOLD, NUMBER_OF_MEMBERS>> =
        picks.iter().map(|i| dup_eval(&evals[*i])).collect();
    combine_partial_evaluations(&subset).unwrap()
}

#[test]
fn test_subset_independence_small() {
    // (t, n) = (4, 6): every 4-member subset yields the same output.
    let mut rng = ChaCha20Rng::seed_from_u64(42);
    let (coeffs, keys, _) = setup::<4, 6>(&mut rng);
    let gpk = get_group_public_key(&coeffs[0]);
    let input = b"test first random";
    let evals: Vec<PartialEval<4, 6>> =
        keys.iter().map(|key| key.evaluate(input, &mut rng)).collect();

    let reference = combine_subset(&evals, &[0, 1, 2, 3]);
    reference.verify(input, &gpk).unwrap();
    for a in 0..6usize {
        for b in (a + 1)..6 {
            for c in (b + 1)..6 {
                for d in (c + 1)..6 {
                    let other = combine_subset(&evals, &[a, b, c, d]);
                    assert_eq!(
                        other.get_sigma().to_bytes(),
                        reference.get_sigma().to_bytes()
                    );
                    assert_eq!(other.get_random(), reference.get_random());
                }
            }
        }
    }
}

fn assert_subsets_agree<const THRESHOLD: usize, const NUMBER_OF_MEMBERS: usize>(
    picks_list: &[Vec<usize>],
) {
    let mut rng = ChaCha20Rng::seed_from_u64(42);
    let (coeffs, keys, _) = setup::<THRESHOLD, NUMBER_OF_MEMBERS>(&mut rng);
    let gpk = get_group_public_key(&coeffs[0]);
    let input = b"test first random";
    let evals: Vec<PartialEval<THRESHOLD, NUMBER_OF_MEMBERS>> =
        keys.iter().map(|key| key.evaluate(input, &mut rng)).collect();

    let reference = combine_subset(&evals, &picks_list[0]);
    reference.verify(input, &gpk).unwrap();
    for picks in &picks_list[1..] {
        let other = combine_subset(&evals, picks);
        assert_eq!(other.get_sigma().to_bytes(), reference.get_sigma().to_bytes());
        assert_eq!(other.get_random(), reference.get_random());
    }
}

#[test]
fn test_subset_independence_medium() {
    // (t, n) = (7, 13) and (14, 27).
    assert_subsets_agree::<7, 13>(&[
        (0..7).collect(),
        (6..13).collect(),
        vec![0, 2, 4, 6, 8, 10, 12],
    ]);
    assert_subsets_agree::<14, 27>(&[
        (0..14).collect(),
        (13..27).collect(),
        (0..27).step_by(2).take(14).collect(),
    ]);
}

#[test]
fn test_subset_independence_large() {
    // (t, n) = (28, 55).
    assert_subsets_agree::<28, 55>(&[(0..28).collect(), (27..55).collect()]);
}

#[test]
fn test_subset_independence_largest() {
    // (t, n) = (57, 112).
    assert_subsets_agree::<57, 112>(&[(0..57).collect(), (55..112).collect()]);
}

#[test]
fn test_combine_rejects_bad_index_sets() {
    let mut rng = ChaCha20Rng::seed_from_u64(42);
    let (_, keys, _) = setup::<2, 4>(&mut rng);
    let input = b"test first random";
    let evals: Vec<PartialEval<2, 4>> =
        keys.iter().map(|key| key.evaluate(input, &mut rng)).collect();

    // A duplicate index is an order violation.
    let dup = vec![dup_eval(&evals[0]), dup_eval(&evals[0])];
    assert_eq!(
        combine_partial_evaluations(&dup).unwrap_err(),
        Error::InvalidOrder { index: 0 }
    );

    // Descending order is rejected at the offending position.
    let desc = vec![dup_eval(&evals[1]), dup_eval(&evals[0])];
    assert_eq!(
        combine_partial_evaluations(&desc).unwrap_err(),
        Error::InvalidOrder { index: 0 }
    );

    // An out-of-range index is rejected with its value.
    let oob = vec![
        dup_eval(&evals[0]),
        PartialEval::<2, 4>::new(
            9,
            evals[1].get_value().clone(),
            evals[1].get_z().clone(),
            evals[1].get_c().clone(),
        ),
    ];
    assert_eq!(
        combine_partial_evaluations(&oob).unwrap_err(),
        Error::InvalidIndex { index: 9 }
    );
}

#[test]
fn test_beacon_output_shape_and_wrong_key() {
    let mut rng = ChaCha20Rng::seed_from_u64(42);
    let (coeffs, keys, _) = setup::<2, 4>(&mut rng);
    let gpk = get_group_public_key(&coeffs[0]);
    let input = b"test first random";
    let evals: Vec<PartialEval<2, 4>> =
        keys.iter().map(|key| key.evaluate(input, &mut rng)).collect();
    let pr = combine_partial_evaluations(&evals[0..2]).unwrap();

    // The randomness is the 64-byte digest of the 32-byte aggregate point.
    assert_eq!(pr.get_sigma().to_bytes().len(), 32);
    assert_eq!(pr.get_random().len(), 64);
    assert_ne!(&pr.get_random()[..32], pr.get_sigma().to_bytes().as_slice());

    // The output fails against another group key or another input.
    pr.verify(input, &gpk).unwrap();
    let wrong_gpk = get_group_public_key(&coeffs[1]);
    assert_eq!(pr.verify(input, &wrong_gpk), Err(Error::VerifyFailed));
    assert_eq!(pr.verify(b"another round", &gpk), Err(Error::VerifyFailed));
}
