//! Combining partial evaluations into the beacon output, and the pairing
//! checks on keys and outputs.

use vstd::prelude::*;

use crate::bytes::bytes_eq;
use crate::curve::{
    blake2b_512, blake2b_hash, g1_add, g1_add_pt, g1_base_scale, g1_mul, g1_mul_base, g1_scale,
    g2_base_scale, g2_mul_base, gt_pairing, hash_to_curve, hash_to_g1, pairing_check, G1Point,
    G2Point,
};
use crate::dkg::{eval_domain, eval_prefix, PartialEval};
use crate::errors::Error;
use crate::field::{fr_inv_of, fr_invert, fr_mul, fr_order, fr_sub, Scalar};

verus! {

/// Whether each index is strictly below its successor.
pub open spec fn indices_sorted(indices: Seq<usize>) -> bool {
    forall|j: int| 0 <= j < indices.len() - 1 ==> #[trigger] indices[j] < indices[j + 1]
}

/// Whether each index lies in `[1, n]`.
pub open spec fn indices_in_range(indices: Seq<usize>, n: usize) -> bool {
    forall|j: int| 0 <= j < indices.len() ==> 1 <= #[trigger] indices[j] <= n
}

/// The scan [`check_indices`] performs from position `i` on: the first
/// violation found walking up the list, each position checked first against
/// its successor and then against the range.
pub open spec fn index_check(indices: Seq<usize>, n: usize, i: int) -> Result<(), Error>
    decreases indices.len() - i,
{
    if i < 0 || i >= indices.len() {
        Ok(())
    } else if i < indices.len() - 1 && indices[i] >= indices[i + 1] {
        Err(Error::InvalidOrder { index: i as usize })
    } else if indices[i] > n || indices[i] < 1 {
        Err(Error::InvalidIndex { index: indices[i] })
    } else {
        index_check(indices, n, i + 1)
    }
}

proof fn lemma_index_check_rec(indices: Seq<usize>, n: usize, i: int)
    requires
        0 <= i <= indices.len(),
    ensures
        (index_check(indices, n, i) is Ok) <==> ((forall|j: int|
            i <= j < indices.len() - 1 ==> #[trigger] indices[j] < indices[j + 1]) && (forall|
            j: int,
        |
            i <= j < indices.len() ==> 1 <= #[trigger] indices[j] <= n)),
        !(index_check(indices, n, i) matches Err(Error::VerifyFailed)),
        (forall|j: int| i <= j < indices.len() ==> 1 <= #[trigger] indices[j] <= n) ==> !(
        index_check(indices, n, i) matches Err(Error::InvalidIndex { .. })),
        (forall|j: int| i <= j < indices.len() - 1 ==> #[trigger] indices[j] < indices[j + 1])
            ==> !(index_check(indices, n, i) matches Err(Error::InvalidOrder { .. })),
    decreases indices.len() - i,
{
    if i < indices.len() {
        if i < indices.len() - 1 && indices[i] >= indices[i + 1] {
        } else if indices[i] > n || indices[i] < 1 {
        } else {
            lemma_index_check_rec(indices, n, i + 1);
        }
    }
}

/// Law: the index scan accepts exactly the strictly increasing lists of
/// indices in `[1, n]`; a list in range but out of order is rejected as
/// out of order, and a strictly increasing list with an index out of range
/// is rejected as out of range.
pub proof fn lemma_index_check(indices: Seq<usize>, n: usize)
    ensures
        (index_check(indices, n, 0) is Ok) <==> (indices_sorted(indices) && indices_in_range(
            indices,
            n,
        )),
        indices_in_range(indices, n) && !indices_sorted(indices) ==> (index_check(indices, n, 0)
            matches Err(Error::InvalidOrder { .. })),
        indices_sorted(indices) && !indices_in_range(indices, n) ==> (index_check(indices, n, 0)
            matches Err(Error::InvalidIndex { .. })),
{
    lemma_index_check_rec(indices, n, 0);
}

/// In a strictly increasing list, earlier entries are smaller.
proof fn lemma_sorted_strict(s: Seq<usize>, a: int, b: int)
    requires
        indices_sorted(s),
        0 <= a < b < s.len(),
    ensures
        s[a] < s[b],
    decreases b - a,
{
    if a + 1 < b {
        lemma_sorted_strict(s, a + 1, b);
    }
}

/// Check that the indices are strictly increasing and lie in `[1, n]`,
/// reporting the first violation walking up the list.
pub fn check_indices<const NUMBER_OF_MEMBERS: usize>(indices: &[usize]) -> (r: Result<(), Error>)
    ensures
        r == index_check(indices@, NUMBER_OF_MEMBERS, 0),
{
    let n = indices.len();
    let mut i: usize = 0;
    while i < n
        invariant
            i <= n,
            n == indices@.len(),
            index_check(indices@, NUMBER_OF_MEMBERS, 0) == index_check(
                indices@,
                NUMBER_OF_MEMBERS,
                i as int,
            ),
        decreases n - i,
    {
        if i < n - 1 {
            if indices[i] >= indices[i + 1] {
                return Err(Error::InvalidOrder { index: i });
            }
        }
        if indices[i] > NUMBER_OF_MEMBERS || indices[i] < 1 {
            return Err(Error::InvalidIndex { index: indices[i] });
        }
        i += 1;
    }
    Ok(())
}

/// `a - b` modulo the field order, for values below it.
pub open spec fn sub_mod(a: nat, b: nat) -> nat {
    ((a + fr_order() - b) % (fr_order() as int)) as nat
}

/// A nonzero difference stays nonzero modulo the field order.
proof fn lemma_sub_mod_nonzero(a: nat, b: nat)
    requires
        a < fr_order(),
        b < fr_order(),
        a != b,
    ensures
        sub_mod(a, b) != 0,
{
    if a > b {
        vstd::arithmetic::div_mod::lemma_mod_multiples_vanish(
            1,
            (a - b) as int,
            fr_order() as int,
        );
        vstd::arithmetic::div_mod::lemma_small_mod((a - b) as nat, fr_order());
    } else {
        vstd::arithmetic::div_mod::lemma_small_mod((a + fr_order() - b) as nat, fr_order());
    }
}

/// The partial product, over the positions from `k` up and skipping `i`, of
/// the Lagrange factors `id_k / (id_k - id_i)` modulo the field order.
pub open spec fn lagrange_prod(ids: Seq<nat>, i: int, k: int) -> nat
    decreases ids.len() - k,
{
    if k < 0 || k >= ids.len() {
        1
    } else if k == i {
        lagrange_prod(ids, i, k + 1)
    } else {
        let term = (ids[k] * fr_inv_of(sub_mod(ids[k], ids[i]))) % fr_order();
        (term * lagrange_prod(ids, i, k + 1)) % fr_order()
    }
}

/// The Lagrange coefficient at zero for position `i` of the index list:
/// `prod_{k != i} id_k / (id_k - id_i)` modulo the field order.
pub open spec fn lagrange_coeff(ids: Seq<nat>, i: int) -> nat {
    lagrange_prod(ids, i, 0)
}

/// The Lagrange-weighted sum of the first `i` evaluation points:
/// `sum_j v_j^{lambda_j}` in additive form.
pub open spec fn sigma_sum(vs: Seq<Seq<u8>>, ids: Seq<nat>, i: int) -> Seq<u8>
    decreases i,
{
    if i <= 1 {
        g1_scale(vs[0], lagrange_coeff(ids, 0))
    } else {
        g1_add_pt(sigma_sum(vs, ids, i - 1), g1_scale(vs[i - 1], lagrange_coeff(ids, i - 1)))
    }
}

/// The combined beacon point: the Lagrange-weighted sum of all the
/// evaluation points, the interpolation of `H(x)^{f(i)}` at zero.
pub open spec fn combined_sigma(vs: Seq<Seq<u8>>, ids: Seq<nat>) -> Seq<u8> {
    sigma_sum(vs, ids, vs.len() as int)
}

/// The beacon's output for one input: the aggregate point `sigma = H(x)^a`
/// and its derived randomness, the Blake2b-512 digest of `sigma`'s
/// compressed encoding.
#[derive(Debug)]
pub struct PseudoRandom {
    sigma: G1Point,
    random: Vec<u8>,
}

impl PseudoRandom {
    /// Every beacon output carries as its randomness the digest of its own
    /// aggregate point.
    #[verifier::type_invariant]
    pub closed spec fn wf(self) -> bool {
        self.random@ == blake2b_512(self.sigma@)
    }

    /// The aggregate point's compressed encoding.
    pub closed spec fn sigma_bytes(self) -> Seq<u8> {
        self.sigma@
    }

    /// The derived randomness.
    pub closed spec fn random_bytes(self) -> Seq<u8> {
        self.random@
    }

    /// The aggregate point `sigma = H(x)^a`.
    pub fn get_sigma(&self) -> (r: &G1Point)
        ensures
            r@ == self.sigma_bytes(),
    {
        &self.sigma
    }

    /// The 64 bytes of derived randomness.
    pub fn get_random(&self) -> (r: &[u8])
        ensures
            r@ == self.random_bytes(),
    {
        self.random.as_slice()
    }

    /// Law: the randomness is a function of the aggregate point alone; two
    /// outputs with the same point carry the same randomness.
    pub proof fn lemma_randomness_determined(p1: PseudoRandom, p2: PseudoRandom)
        requires
            p1.wf(),
            p2.wf(),
            p1.sigma_bytes() == p2.sigma_bytes(),
        ensures
            p1.random_bytes() == p2.random_bytes(),
    {
    }

    /// Verify the beacon output against an input and the group public key:
    /// accept exactly when `e(H(x), gpk) == e(sigma, g2)` and the carried
    /// randomness is the digest of `sigma`.
    pub fn verify(&self, input: &[u8], gpk: &G2Point) -> (r: Result<(), Error>)
        ensures
            ({
                let good = gt_pairing(hash_to_g1(eval_domain(), input@), gpk@) == gt_pairing(
                    self.sigma_bytes(),
                    g2_base_scale(1),
                ) && self.random_bytes() == blake2b_512(self.sigma_bytes());
                match r {
                    Ok(()) => good,
                    Err(Error::VerifyFailed) => !good,
                    Err(Error::InvalidIndex { .. }) => false,
                    Err(Error::InvalidOrder { .. }) => false,
                }
            }),
    {
        let one = Scalar::from_u64(1);
        let g2 = g2_mul_base(&one);
        let h = hash_to_curve(eval_prefix(), input);
        if !pairing_check(&h, gpk, &self.sigma, &g2) {
            return Err(Error::VerifyFailed);
        }
        let digest = blake2b_hash(self.sigma.as_bytes());
        if !bytes_eq(self.random.as_slice(), digest.as_slice()) {
            proof {
                use_type_invariant(&*self);
            }
            return Err(Error::VerifyFailed);
        }
        Ok(())
    }
}

/// Combine exactly `t` partial evaluations, with strictly increasing member
/// indices in `[1, n]`, into the beacon output: the Lagrange interpolation
/// of the evaluation points at zero, with its derived randomness.
#[verifier::loop_isolation(false)]
pub fn combine_partial_evaluations<const THRESHOLD: usize, const NUMBER_OF_MEMBERS: usize>(
    sigmas: &[PartialEval<THRESHOLD, NUMBER_OF_MEMBERS>],
) -> (r: Result<PseudoRandom, Error>)
    requires
        sigmas@.len() == THRESHOLD,
        THRESHOLD >= 1,
    ensures
        ({
            let idxs = sigmas@.map_values(
                |s: PartialEval<THRESHOLD, NUMBER_OF_MEMBERS>| s.idx(),
            );
            let ids = sigmas@.map_values(
                |s: PartialEval<THRESHOLD, NUMBER_OF_MEMBERS>| s.idx() as nat,
            );
            let vs = sigmas@.map_values(
                |s: PartialEval<THRESHOLD, NUMBER_OF_MEMBERS>| s.v_bytes(),
            );
            match r {
                Ok(pr) => (index_check(idxs, NUMBER_OF_MEMBERS, 0) is Ok) && pr.sigma_bytes()
                    == combined_sigma(vs, ids) && pr.random_bytes() == blake2b_512(
                    combined_sigma(vs, ids),
                ) && pr.random_bytes().len() == 64,
                Err(e) => index_check(idxs, NUMBER_OF_MEMBERS, 0) == Err::<(), Error>(e),
            }
        }),
{
    let ghost idxs = sigmas@.map_values(|s: PartialEval<THRESHOLD, NUMBER_OF_MEMBERS>| s.idx());
    let ghost ids = sigmas@.map_values(
        |s: PartialEval<THRESHOLD, NUMBER_OF_MEMBERS>| s.idx() as nat,
    );
    let ghost vs = sigmas@.map_values(|s: PartialEval<THRESHOLD, NUMBER_OF_MEMBERS>| s.v_bytes());
    let t = sigmas.len();

    let mut indices: Vec<usize> = Vec::new();
    let mut i: usize = 0;
    while i < t
        invariant
            i <= t,
            indices@.len() == i,
            forall|j: int| 0 <= j < i ==> indices@[j] == idxs[j],
        decreases t - i,
    {
        indices.push(sigmas[i].get_index());
        i += 1;
    }
    proof {
        assert(indices@ =~= idxs);
    }

    match check_indices::<NUMBER_OF_MEMBERS>(indices.as_slice()) {
        Err(e) => {
            return Err(e);
        },
        Ok(()) => {},
    }
    proof {
        lemma_index_check(idxs, NUMBER_OF_MEMBERS);
    }

    // The Lagrange coefficients at zero for each position.
    let mut lambdas: Vec<Scalar> = Vec::new();
    let mut ii: usize = 0;
    while ii < t
        invariant
            ii <= t,
            lambdas@.len() == ii,
            forall|j: int| 0 <= j < ii ==> #[trigger] lambdas@[j].val() == lagrange_coeff(ids, j),
        decreases t - ii,
    {
        let mut lambda = Scalar::from_u64(1);
        let mut k = t;
        while k > 0
            invariant
                ii < t,
                k <= t,
                lambda.val() == lagrange_prod(ids, ii as int, k as int),
            decreases k,
        {
            k -= 1;
            if k != ii {
                let ksc = Scalar::from_u64(indices[k] as u64);
                let isc = Scalar::from_u64(indices[ii] as u64);
                let sub = fr_sub(&ksc, &isc);
                proof {
                    lemma_sorted_strict_between(idxs, k as int, ii as int);
                    lemma_sub_mod_nonzero(ids[k as int], ids[ii as int]);
                }
                let inv = fr_invert(&sub);
                let z = fr_mul(&ksc, &inv);
                lambda = fr_mul(&z, &lambda);
            }
        }
        lambdas.push(lambda);
        ii += 1;
    }

    // The Lagrange-weighted sum of the evaluation points.
    let mut sum = g1_mul(sigmas[0].get_value(), &lambdas[0]);
    let mut m: usize = 1;
    while m < t
        invariant
            1 <= m <= t,
            sum@ == sigma_sum(vs, ids, m as int),
        decreases t - m,
    {
        let w = g1_mul(sigmas[m].get_value(), &lambdas[m]);
        sum = g1_add(&sum, &w);
        m += 1;
    }

    let random = blake2b_hash(sum.as_bytes());
    Ok(PseudoRandom { sigma: sum, random })
}

/// Two distinct positions of a strictly increasing list hold distinct
/// values.
proof fn lemma_sorted_strict_between(s: Seq<usize>, a: int, b: int)
    requires
        indices_sorted(s),
        0 <= a < s.len(),
        0 <= b < s.len(),
        a != b,
    ensures
        s[a] != s[b],
{
    if a < b {
        lemma_sorted_strict(s, a, b);
    } else {
        lemma_sorted_strict(s, b, a);
    }
}

/// Draw a fresh key pair: a random secret scalar and its public image
/// `g^{sk}` in G1.
pub fn keygen<R: rand_core::RngCore>(rng: &mut R) -> (r: (Scalar, G1Point))
    ensures
        r.1@ == g1_base_scale(r.0.val()),
{
    let sk = Scalar::random(rng);
    let pk = g1_mul_base(&sk);
    (sk, pk)
}

/// The public image `g^{sk}` in G1 of a secret scalar.
pub fn get_public_key(sk: Scalar) -> (r: G1Point)
    ensures
        r@ == g1_base_scale(sk.val()),
{
    g1_mul_base(&sk)
}

/// The group public key `g2^a` in G2 of a master secret; the DKG publishes
/// it, and callers that hold the coefficients can recompute it.
pub fn get_group_public_key(a: &Scalar) -> (r: G2Point)
    ensures
        r@ == g2_base_scale(a.val()),
{
    g2_mul_base(a)
}

/// Check that the commitments `g^a` in G1 and `g2^b` in G2 bind the same
/// exponent: accept exactly when `e(g, g2^b) == e(g^a, g2)`.
pub fn verify_public_coeffs(ga: G1Point, g2a: G2Point) -> (r: Result<(), Error>)
    ensures
        match r {
            Ok(()) => gt_pairing(g1_base_scale(1), g2a@) == gt_pairing(ga@, g2_base_scale(1)),
            Err(Error::VerifyFailed) => gt_pairing(g1_base_scale(1), g2a@) != gt_pairing(
                ga@,
                g2_base_scale(1),
            ),
            Err(Error::InvalidIndex { .. }) => false,
            Err(Error::InvalidOrder { .. }) => false,
        },
{
    let one = Scalar::from_u64(1);
    let g = g1_mul_base(&one);
    let g2 = g2_mul_base(&one);
    if !pairing_check(&g, &g2a, &ga, &g2) {
        return Err(Error::VerifyFailed);
    }
    Ok(())
}

} // verus!
