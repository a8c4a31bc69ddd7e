//! Share keys and partial evaluations with their Chaum-Pedersen DLEQ proofs.

use vstd::prelude::*;

use crate::bytes::{append_bytes, bytes_eq, le_bytes_nat};
use vstd::string::StringSliceAdditionalSpecFns;
use vstd::utf8::{encode_scalar, encode_utf8};
use crate::curve::{
    blake2b_512, blake2b_hash, g1_base_scale, g1_mul, g1_mul_base, g1_scale, g1_sub, g1_sub_pt,
    hash_to_curve, hash_to_g1, G1Point,
};
use crate::errors::Error;
use crate::field::{fr_add, fr_from_uniform, fr_mul, fr_order, scalar_eq, Scalar};

verus! {

/// The domain prefix under which beacon inputs are hashed to the curve.
pub open spec fn eval_domain() -> Seq<char> {
    "partial evaluation for creating randomness"@
}

/// A UTF-8 encoding holds at most four bytes per character.
proof fn lemma_utf8_len_bound(chars: Seq<char>)
    ensures
        encode_utf8(chars).len() <= 4 * chars.len(),
    decreases chars.len(),
{
    if chars.len() > 0 {
        lemma_utf8_len_bound(chars.drop_first());
        assert(encode_scalar(chars[0] as u32).len() <= 4);
    }
}

/// The domain prefix as a string; its UTF-8 encoding is short enough for
/// [`hash_to_curve`]'s bound on domain prefixes.
pub fn eval_prefix() -> (r: &'static str)
    ensures
        r@ == eval_domain(),
        r.spec_bytes().len() <= 225,
{
    let s = "partial evaluation for creating randomness";
    proof {
        reveal_strlit("partial evaluation for creating randomness");
        assert(s@.len() == 42);
        lemma_utf8_len_bound(s@);
    }
    s
}

/// The Fiat-Shamir transcript: the compressed encodings of
/// `(g, H, R_1, R_2, vk, v)`, concatenated in this exact order.
pub open spec fn transcript(
    h: Seq<u8>,
    r1: Seq<u8>,
    r2: Seq<u8>,
    vk: Seq<u8>,
    v: Seq<u8>,
) -> Seq<u8> {
    g1_base_scale(1) + h + r1 + r2 + vk + v
}

/// The Fiat-Shamir challenge: the transcript's Blake2b-512 digest, read as
/// a little-endian integer and reduced into the scalar field.
pub open spec fn challenge_val(
    h: Seq<u8>,
    r1: Seq<u8>,
    r2: Seq<u8>,
    vk: Seq<u8>,
    v: Seq<u8>,
) -> nat {
    le_bytes_nat(blake2b_512(transcript(h, r1, r2, vk, v))) % fr_order()
}

/// Compute the Fiat-Shamir challenge over the transcript points.
fn compute_challenge(
    h: &G1Point,
    r1: &G1Point,
    r2: &G1Point,
    vk: &G1Point,
    v: &G1Point,
) -> (c: Scalar)
    ensures
        c.val() == challenge_val(h@, r1@, r2@, vk@, v@),
{
    let one = Scalar::from_u64(1);
    let g = g1_mul_base(&one);
    let mut data: Vec<u8> = Vec::new();
    append_bytes(&mut data, g.as_bytes());
    append_bytes(&mut data, h.as_bytes());
    append_bytes(&mut data, r1.as_bytes());
    append_bytes(&mut data, r2.as_bytes());
    append_bytes(&mut data, vk.as_bytes());
    append_bytes(&mut data, v.as_bytes());
    proof {
        assert(data@ =~= transcript(h@, r1@, r2@, vk@, v@));
    }
    let digest = blake2b_hash(data.as_slice());
    fr_from_uniform(digest.as_slice())
}

/// One member's share key: its index in `[1, n]`, its secret share of the
/// master secret, and the verification key `g^{sk}` published for it.
pub struct DkgShareKey<const THRESHOLD: usize, const NUMBER_OF_MEMBERS: usize> {
    index: usize,
    sk: Scalar,
    vk: G1Point,
}

impl<const THRESHOLD: usize, const NUMBER_OF_MEMBERS: usize> DkgShareKey<
    THRESHOLD,
    NUMBER_OF_MEMBERS,
> {
    /// The member's index.
    pub closed spec fn idx(self) -> usize {
        self.index
    }

    /// The secret share's value.
    pub closed spec fn sk_val(self) -> nat {
        self.sk.val()
    }

    /// The verification key's compressed encoding.
    pub closed spec fn vk_bytes(self) -> Seq<u8> {
        self.vk@
    }

    /// Assemble a share key. The constructor is trusted in the protocol's
    /// sense: the caller answers for `vk` being `g^{sk}` and for the index
    /// (the DKG enforces both upstream); [`Self::verify`] checks the key
    /// against the published list.
    pub fn new(index: usize, sk: Scalar, vk: G1Point) -> (r: Self)
        ensures
            r.idx() == index,
            r.sk_val() == sk.val(),
            r.vk_bytes() == vk@,
    {
        DkgShareKey { index, sk, vk }
    }

    /// The verification key `g^{sk}`.
    pub fn get_verification_key(&self) -> (r: G1Point)
        ensures
            r@ == self.vk_bytes(),
    {
        self.vk.clone()
    }

    /// The member's index.
    pub fn get_index(&self) -> (r: usize)
        ensures
            r == self.idx(),
    {
        self.index
    }

    /// Check this key's index and verification key against the published
    /// list of all members' verification keys.
    pub fn verify(&self, vks: &[G1Point]) -> (r: Result<(), Error>)
        requires
            vks@.len() == NUMBER_OF_MEMBERS,
        ensures
            match r {
                Ok(()) => 1 <= self.idx() <= NUMBER_OF_MEMBERS && self.vk_bytes() == vks@[(
                self.idx() - 1) as int]@,
                Err(Error::InvalidIndex { index }) => index == self.idx() && !(1 <= self.idx()
                    <= NUMBER_OF_MEMBERS),
                Err(Error::VerifyFailed) => 1 <= self.idx() <= NUMBER_OF_MEMBERS
                    && self.vk_bytes() != vks@[(self.idx() - 1) as int]@,
                Err(Error::InvalidOrder { .. }) => false,
            },
    {
        if self.index < 1 || self.index > NUMBER_OF_MEMBERS {
            return Err(Error::InvalidIndex { index: self.index });
        }
        if !bytes_eq(self.vk.as_bytes(), vks[self.index - 1].as_bytes()) {
            return Err(Error::VerifyFailed);
        }
        Ok(())
    }

    /// Produce this member's partial evaluation of a beacon input: the share
    /// `v = H(x)^{sk}` with a DLEQ proof that `v` and `vk` share the
    /// discrete log `sk`, built under a fresh random nonce drawn from `rng`.
    pub fn evaluate<R: rand_core::RngCore>(&self, input: &[u8], rng: &mut R) -> (sigma:
        PartialEval<THRESHOLD, NUMBER_OF_MEMBERS>)
        ensures
            sigma.idx() == self.idx(),
            sigma.v_bytes() == g1_scale(hash_to_g1(eval_domain(), input@), self.sk_val()),
            exists|nonce: nat|
                #![trigger g1_base_scale(nonce)]
                {
                    let h = hash_to_g1(eval_domain(), input@);
                    &&& nonce < fr_order()
                    &&& sigma.c_val() == challenge_val(
                        h,
                        g1_base_scale(nonce),
                        g1_scale(h, nonce),
                        self.vk_bytes(),
                        sigma.v_bytes(),
                    )
                    &&& sigma.z_val() == (sigma.c_val() * self.sk_val() + nonce) % fr_order()
                },
    {
        let h = hash_to_curve(eval_prefix(), input);
        let v = g1_mul(&h, &self.sk);
        let r = Scalar::random(rng);
        let cap_r_1 = g1_mul_base(&r);
        let cap_r_2 = g1_mul(&h, &r);
        let c = compute_challenge(&h, &cap_r_1, &cap_r_2, &self.vk, &v);
        let cs = fr_mul(&c, &self.sk);
        let z = fr_add(&cs, &r);
        let sigma = PartialEval { index: self.index, v, dleq: (z, c) };
        proof {
            use_type_invariant(&r);
            r.lemma_canonical();
            vstd::arithmetic::div_mod::lemma_add_mod_noop_right(
                r.val() as int,
                (c.val() * self.sk.val()) as int,
                fr_order() as int,
            );
            let hh = hash_to_g1(eval_domain(), input@);
            assert(r.val() < fr_order() && sigma.c_val() == challenge_val(
                hh,
                g1_base_scale(r.val()),
                g1_scale(hh, r.val()),
                self.vk_bytes(),
                sigma.v_bytes(),
            ) && sigma.z_val() == (sigma.c_val() * self.sk_val() + r.val()) % fr_order());
        }
        sigma
    }
}

/// A partial evaluation `(index, v, (z, c))`: member `index`'s share of the
/// beacon output on some input, with its DLEQ proof.
pub struct PartialEval<const THRESHOLD: usize, const NUMBER_OF_MEMBERS: usize> {
    index: usize,
    v: G1Point,
    dleq: (Scalar, Scalar),
}

impl<const THRESHOLD: usize, const NUMBER_OF_MEMBERS: usize> PartialEval<
    THRESHOLD,
    NUMBER_OF_MEMBERS,
> {
    /// The member index the evaluation claims.
    pub closed spec fn idx(self) -> usize {
        self.index
    }

    /// The evaluation point's compressed encoding.
    pub closed spec fn v_bytes(self) -> Seq<u8> {
        self.v@
    }

    /// The DLEQ response's value.
    pub closed spec fn z_val(self) -> nat {
        self.dleq.0.val()
    }

    /// The DLEQ challenge's value.
    pub closed spec fn c_val(self) -> nat {
        self.dleq.1.val()
    }

    /// Assemble a partial evaluation from its parts, as when one arrives
    /// from a remote member.
    pub fn new(index: usize, v: G1Point, z: Scalar, c: Scalar) -> (r: Self)
        ensures
            r.idx() == index,
            r.v_bytes() == v@,
            r.z_val() == z.val(),
            r.c_val() == c.val(),
    {
        PartialEval { index, v, dleq: (z, c) }
    }

    /// The member index the evaluation claims.
    pub fn get_index(&self) -> (r: usize)
        ensures
            r == self.idx(),
    {
        self.index
    }

    /// The evaluation point `v = H(x)^{sk}`.
    pub fn get_value(&self) -> (r: &G1Point)
        ensures
            r@ == self.v_bytes(),
    {
        &self.v
    }

    /// The DLEQ response `z`.
    pub fn get_z(&self) -> (r: &Scalar)
        ensures
            r.val() == self.z_val(),
    {
        &self.dleq.0
    }

    /// The DLEQ challenge `c`.
    pub fn get_c(&self) -> (r: &Scalar)
        ensures
            r.val() == self.c_val(),
    {
        &self.dleq.1
    }

    /// Verify the DLEQ proof against a verification key: recompute the
    /// commitments `R_1 = g^z vk^{-c}` and `R_2 = H(x)^z v^{-c}` and accept
    /// exactly when the recomputed Fiat-Shamir challenge equals `c`.
    pub fn verify(&self, input: &[u8], vk: &G1Point) -> (r: Result<(), Error>)
        ensures
            ({
                let h = hash_to_g1(eval_domain(), input@);
                let r1 = g1_sub_pt(g1_base_scale(self.z_val()), g1_scale(vk@, self.c_val()));
                let r2 = g1_sub_pt(
                    g1_scale(h, self.z_val()),
                    g1_scale(self.v_bytes(), self.c_val()),
                );
                let in_range = 1 <= self.idx() <= NUMBER_OF_MEMBERS;
                let accepted = self.c_val() == challenge_val(h, r1, r2, vk@, self.v_bytes());
                match r {
                    Ok(()) => in_range && accepted,
                    Err(Error::InvalidIndex { index }) => index == self.idx() && !in_range,
                    Err(Error::VerifyFailed) => in_range && !accepted,
                    Err(Error::InvalidOrder { .. }) => false,
                }
            }),
    {
        if self.index > NUMBER_OF_MEMBERS || self.index < 1 {
            return Err(Error::InvalidIndex { index: self.index });
        }
        let h = hash_to_curve(eval_prefix(), input);
        let z = &self.dleq.0;
        let c = &self.dleq.1;
        let gz = g1_mul_base(z);
        let vkc = g1_mul(vk, c);
        let cap_r_1 = g1_sub(&gz, &vkc);
        let hz = g1_mul(&h, z);
        let vc = g1_mul(&self.v, c);
        let cap_r_2 = g1_sub(&hz, &vc);
        let c_tilde = compute_challenge(&h, &cap_r_1, &cap_r_2, vk, &self.v);
        if !scalar_eq(c, &c_tilde) {
            return Err(Error::VerifyFailed);
        }
        Ok(())
    }
}

} // verus!
