//! Polynomials over the scalar field and the Shamir shares they define.

use vstd::prelude::*;

use crate::field::{fr_add, fr_mul, fr_order, Scalar};

verus! {

/// The values of a sequence of scalars.
pub open spec fn scalar_vals(coeffs: Seq<Scalar>) -> Seq<nat> {
    coeffs.map_values(|c: Scalar| c.val())
}

/// Horner evaluation, modulo the field order, of the polynomial whose
/// coefficients are given in ascending order: `c_0 + x (c_1 + x (...))`.
pub open spec fn poly_eval(coeffs: Seq<nat>, x: nat) -> nat
    decreases coeffs.len(),
{
    if coeffs.len() == 0 {
        0
    } else {
        (coeffs[0] + x * poly_eval(coeffs.drop_first(), x)) % fr_order()
    }
}

/// The sum of a sequence of values, modulo the field order.
pub open spec fn sum_mod(coeffs: Seq<nat>) -> nat
    decreases coeffs.len(),
{
    if coeffs.len() == 0 {
        0
    } else {
        (coeffs[0] + sum_mod(coeffs.drop_first())) % fr_order()
    }
}

/// Law: the sum of a polynomial's coefficients is its value at one, so the
/// first member's share `f(1)` may be computed as the plain sum.
pub proof fn lemma_share_sum(coeffs: Seq<nat>)
    ensures
        sum_mod(coeffs) == poly_eval(coeffs, 1),
    decreases coeffs.len(),
{
    if coeffs.len() > 0 {
        lemma_share_sum(coeffs.drop_first());
    }
}

/// Evaluate the polynomial with the given coefficients at the point `i`,
/// Horner-style.
pub fn evaluate_poly(coeffs: &[Scalar], i: usize) -> (r: Scalar)
    requires
        coeffs@.len() >= 1,
        i >= 1,
    ensures
        r.val() == poly_eval(scalar_vals(coeffs@), i as nat),
{
    proof {
        assert(i as u64 as nat == i as nat);
    }
    let x = Scalar::from_u64(i as u64);
    let mut eval = Scalar::from_u64(0);
    let mut j = coeffs.len();
    proof {
        assert(scalar_vals(coeffs@).skip(j as int) =~= Seq::<nat>::empty());
    }
    while j > 0
        invariant
            j <= coeffs@.len(),
            x.val() == i as nat,
            eval.val() == poly_eval(scalar_vals(coeffs@).skip(j as int), i as nat),
        decreases j,
    {
        j = j - 1;
        let cj = &coeffs[j];
        let t = fr_mul(&x, &eval);
        let ghost prev = eval.val();
        eval = fr_add(cj, &t);
        proof {
            let vals = scalar_vals(coeffs@);
            let c = vals[j as int];
            assert(vals.skip(j as int).drop_first() =~= vals.skip(j as int + 1));
            assert(vals.skip(j as int)[0] == c);
            use_type_invariant(&*cj);
            cj.lemma_canonical();
            assert(c == cj.val());
            vstd::arithmetic::div_mod::lemma_small_mod(c, fr_order());
            vstd::arithmetic::div_mod::lemma_add_mod_noop_right(
                c as int,
                (i as nat * prev) as int,
                fr_order() as int,
            );
        }
    }
    proof {
        assert(scalar_vals(coeffs@).skip(0) =~= scalar_vals(coeffs@));
    }
    eval
}

/// Compute the `n` members' secret shares `[f(1), ..., f(n)]` of the
/// polynomial with the given coefficients; the first share is computed as
/// the coefficients' plain sum.
pub fn get_shares<const THRESHOLD: usize, const NUMBER_OF_MEMBERS: usize>(
    coeffs: &[Scalar],
) -> (shares: Vec<Scalar>)
    requires
        coeffs@.len() == THRESHOLD,
        THRESHOLD >= 1,
        NUMBER_OF_MEMBERS >= 1,
        NUMBER_OF_MEMBERS < usize::MAX,
    ensures
        shares@.len() == NUMBER_OF_MEMBERS,
        forall|k: int|
            0 <= k < NUMBER_OF_MEMBERS ==> #[trigger] shares@[k].val() == poly_eval(
                scalar_vals(coeffs@),
                (k + 1) as nat,
            ),
{
    let mut shares: Vec<Scalar> = Vec::new();

    // The first share f(1), as the plain sum of the coefficients.
    let mut s1 = Scalar::from_u64(0);
    let mut j = coeffs.len();
    proof {
        assert(scalar_vals(coeffs@).skip(j as int) =~= Seq::<nat>::empty());
    }
    while j > 0
        invariant
            j <= coeffs@.len(),
            s1.val() == sum_mod(scalar_vals(coeffs@).skip(j as int)),
        decreases j,
    {
        j = j - 1;
        s1 = fr_add(&coeffs[j], &s1);
        proof {
            let vals = scalar_vals(coeffs@);
            assert(vals.skip(j as int).drop_first() =~= vals.skip(j as int + 1));
            assert(vals.skip(j as int)[0] == vals[j as int]);
        }
    }
    proof {
        assert(scalar_vals(coeffs@).skip(0) =~= scalar_vals(coeffs@));
        lemma_share_sum(scalar_vals(coeffs@));
    }
    shares.push(s1);

    // The remaining shares f(2), ..., f(n), by Horner evaluation.
    let mut i: usize = 2;
    while i <= NUMBER_OF_MEMBERS
        invariant
            2 <= i <= NUMBER_OF_MEMBERS + 1,
            NUMBER_OF_MEMBERS < usize::MAX,
            coeffs@.len() >= 1,
            shares@.len() == i - 1,
            forall|k: int|
                0 <= k < i - 1 ==> #[trigger] shares@[k].val() == poly_eval(
                    scalar_vals(coeffs@),
                    (k + 1) as nat,
                ),
        decreases NUMBER_OF_MEMBERS + 1 - i,
    {
        let s = evaluate_poly(coeffs, i);
        shares.push(s);
        i = i + 1;
    }
    shares
}

} // verus!
