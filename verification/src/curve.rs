//! BN254's groups G1 and G2, as canonically compressed points, and the
//! pairing between them.
//!
//! Group elements are opaque to the proofs: each operation of the underlying
//! curve library is named by an uninterpreted spec function over the
//! compressed encodings, and the executable wrappers relate their results to
//! those names. G1 points are 32-byte compressed, G2 points 64-byte
//! compressed.

use vstd::prelude::*;

use crate::bytes::copy_bytes;
use crate::field::Scalar;
use halo2curves::bn256::{pairing, Fr, G1Affine, G1Compressed, G2Affine, G2Compressed};
use halo2curves::ff::PrimeField;
use halo2curves::group::{Curve, GroupEncoding};
use vstd::string::StringSliceAdditionalSpecFns;

verus! {

/// Names which 32-byte strings halo2curves' `G1Affine::from_bytes` accepts:
/// the encodings of points on the curve (BN254 G1 has cofactor 1, so every
/// such point lies in the prime-order subgroup).
pub uninterp spec fn g1_on_curve(b: Seq<u8>) -> bool;

/// Names the canonical re-encoding of an accepted 32-byte string: what
/// halo2curves' `to_bytes` returns on the point `G1Affine::from_bytes`
/// decodes the string to. On a canonical encoding it is the string itself.
pub uninterp spec fn g1_norm(b: Seq<u8>) -> Seq<u8>;

/// Names which 64-byte strings halo2curves' `G2Affine::from_bytes` accepts.
pub uninterp spec fn g2_on_curve(b: Seq<u8>) -> bool;

/// Names the canonical re-encoding of an accepted 64-byte string: what
/// halo2curves' `to_bytes` returns on the point `G2Affine::from_bytes`
/// decodes the string to.
pub uninterp spec fn g2_norm(b: Seq<u8>) -> Seq<u8>;

/// Names what halo2curves' scalar multiplication in G1 returns: the
/// compressed encoding of the point multiplied by the scalar.
pub uninterp spec fn g1_scale(p: Seq<u8>, s: nat) -> Seq<u8>;

/// Names what halo2curves' scalar multiplication of G1's fixed generator
/// returns; `g1_base_scale(1)` is the generator itself.
pub uninterp spec fn g1_base_scale(s: nat) -> Seq<u8>;

/// Names what halo2curves' point addition in G1 returns.
pub uninterp spec fn g1_add_pt(a: Seq<u8>, b: Seq<u8>) -> Seq<u8>;

/// Names what halo2curves' point subtraction in G1 returns.
pub uninterp spec fn g1_sub_pt(a: Seq<u8>, b: Seq<u8>) -> Seq<u8>;

/// Names what halo2curves' scalar multiplication of G2's fixed generator
/// returns; `g2_base_scale(1)` is the generator itself.
pub uninterp spec fn g2_base_scale(s: nat) -> Seq<u8>;

/// Names what halo2curves' SvdW hash-to-curve for BN254 G1 (curve id
/// "bn256_g1", constant Z = 1) returns on a domain prefix and an input.
pub uninterp spec fn hash_to_g1(domain: Seq<char>, input: Seq<u8>) -> Seq<u8>;

/// Names what halo2curves' optimal Ate `pairing` returns, as an abstract
/// token: two pairings are equal exactly when their tokens are.
pub uninterp spec fn gt_pairing(p: Seq<u8>, q: Seq<u8>) -> Seq<u8>;

/// Names what blake2b_simd's `blake2b` returns: the 64-byte Blake2b-512
/// digest of the input.
pub uninterp spec fn blake2b_512(data: Seq<u8>) -> Seq<u8>;

/// A point of G1, held as its canonical 32-byte compressed encoding.
#[derive(Debug)]
pub struct G1Point {
    bytes: Vec<u8>,
}

impl View for G1Point {
    type V = Seq<u8>;

    closed spec fn view(&self) -> Seq<u8> {
        self.bytes@
    }
}

impl G1Point {
    /// Every G1 point in existence encodes a point on the curve in 32
    /// bytes; `use_type_invariant` recovers this for any point held by
    /// executable code.
    #[verifier::type_invariant]
    pub closed spec fn well_encoded(self) -> bool {
        self.bytes@.len() == 32 && g1_on_curve(self.bytes@)
    }

    /// Decode a 32-byte compressed encoding, accepting exactly the strings
    /// halo2curves decodes; the point is stored under the canonical
    /// re-encoding of what the string decodes to, so equal points always
    /// carry equal bytes.
    ///
    /// Relies on halo2curves' `G1Affine::from_bytes` and `to_bytes`.
    #[verifier::external_body]
    pub fn from_bytes(bytes: &[u8]) -> (r: Option<G1Point>)
        ensures
            match r {
                Some(p) => p@ == g1_norm(bytes@) && bytes@.len() == 32 && g1_on_curve(bytes@),
                None => !(bytes@.len() == 32 && g1_on_curve(bytes@)),
            },
    {
        let arr: [u8; 32] = match bytes.try_into() {
            Ok(arr) => arr,
            Err(_) => return None,
        };
        let mut repr = G1Compressed::default();
        repr.as_mut().copy_from_slice(&arr);
        let pt: G1Affine = match Option::from(G1Affine::from_bytes(&repr)) {
            Some(pt) => pt,
            None => return None,
        };
        Some(G1Point { bytes: pt.to_bytes().as_ref().to_vec() })
    }

    /// The compressed encoding.
    pub fn to_bytes(&self) -> (r: Vec<u8>)
        ensures
            r@ == self@,
    {
        copy_bytes(self.bytes.as_slice())
    }

    /// Borrow the compressed encoding.
    pub fn as_bytes(&self) -> (r: &[u8])
        ensures
            r@ == self@,
    {
        self.bytes.as_slice()
    }
}

impl Clone for G1Point {
    /// A clone is the same point.
    fn clone(&self) -> (r: Self)
        ensures
            r@ == self@,
    {
        proof {
            use_type_invariant(&*self);
        }
        G1Point { bytes: copy_bytes(self.bytes.as_slice()) }
    }
}

/// A point of G2, held as its canonical 64-byte compressed encoding.
#[derive(Debug)]
pub struct G2Point {
    bytes: Vec<u8>,
}

impl View for G2Point {
    type V = Seq<u8>;

    closed spec fn view(&self) -> Seq<u8> {
        self.bytes@
    }
}

impl G2Point {
    /// Every G2 point in existence encodes a point on the curve in 64
    /// bytes.
    #[verifier::type_invariant]
    pub closed spec fn well_encoded(self) -> bool {
        self.bytes@.len() == 64 && g2_on_curve(self.bytes@)
    }

    /// Decode a 64-byte compressed encoding, accepting exactly the strings
    /// halo2curves decodes; the point is stored under the canonical
    /// re-encoding of what the string decodes to, so equal points always
    /// carry equal bytes.
    ///
    /// Relies on halo2curves' `G2Affine::from_bytes` and `to_bytes`.
    #[verifier::external_body]
    pub fn from_bytes(bytes: &[u8]) -> (r: Option<G2Point>)
        ensures
            match r {
                Some(p) => p@ == g2_norm(bytes@) && bytes@.len() == 64 && g2_on_curve(bytes@),
                None => !(bytes@.len() == 64 && g2_on_curve(bytes@)),
            },
    {
        let arr: [u8; 64] = match bytes.try_into() {
            Ok(arr) => arr,
            Err(_) => return None,
        };
        let mut repr = G2Compressed::default();
        repr.as_mut().copy_from_slice(&arr);
        let pt: G2Affine = match Option::from(G2Affine::from_bytes(&repr)) {
            Some(pt) => pt,
            None => return None,
        };
        Some(G2Point { bytes: pt.to_bytes().as_ref().to_vec() })
    }

    /// The compressed encoding.
    pub fn to_bytes(&self) -> (r: Vec<u8>)
        ensures
            r@ == self@,
    {
        copy_bytes(self.bytes.as_slice())
    }

    /// Borrow the compressed encoding.
    pub fn as_bytes(&self) -> (r: &[u8])
        ensures
            r@ == self@,
    {
        self.bytes.as_slice()
    }
}

impl Clone for G2Point {
    /// A clone is the same point.
    fn clone(&self) -> (r: Self)
        ensures
            r@ == self@,
    {
        proof {
            use_type_invariant(&*self);
        }
        G2Point { bytes: copy_bytes(self.bytes.as_slice()) }
    }
}

/// Multiply a G1 point by a scalar and affinize.
///
/// Relies on halo2curves' `G1Affine * Fr` and `to_affine`.
#[verifier::external_body]
pub(crate) fn g1_mul(p: &G1Point, s: &Scalar) -> (r: G1Point)
    ensures
        r@ == g1_scale(p@, s.val()),
{
    let mut pr = G1Compressed::default();
    pr.as_mut().copy_from_slice(p.as_bytes());
    let pa: G1Affine = Option::from(G1Affine::from_bytes(&pr)).unwrap();
    let sarr: [u8; 32] = s.to_bytes().as_slice().try_into().unwrap();
    let fs: Fr = Option::from(Fr::from_repr(sarr)).unwrap();
    G1Point { bytes: (pa * fs).to_affine().to_bytes().as_ref().to_vec() }
}

/// Multiply G1's fixed generator by a scalar and affinize.
///
/// Relies on halo2curves' `G1Affine::generator`, `*` and `to_affine`.
#[verifier::external_body]
pub(crate) fn g1_mul_base(s: &Scalar) -> (r: G1Point)
    ensures
        r@ == g1_base_scale(s.val()),
{
    let g = G1Affine::generator();
    let sarr: [u8; 32] = s.to_bytes().as_slice().try_into().unwrap();
    let fs: Fr = Option::from(Fr::from_repr(sarr)).unwrap();
    G1Point { bytes: (g * fs).to_affine().to_bytes().as_ref().to_vec() }
}

/// Add two G1 points and affinize.
///
/// Relies on halo2curves' G1 point addition and `to_affine`.
#[verifier::external_body]
pub(crate) fn g1_add(a: &G1Point, b: &G1Point) -> (r: G1Point)
    ensures
        r@ == g1_add_pt(a@, b@),
{
    let mut ra = G1Compressed::default();
    ra.as_mut().copy_from_slice(a.as_bytes());
    let pa: G1Affine = Option::from(G1Affine::from_bytes(&ra)).unwrap();
    let mut rb = G1Compressed::default();
    rb.as_mut().copy_from_slice(b.as_bytes());
    let pb: G1Affine = Option::from(G1Affine::from_bytes(&rb)).unwrap();
    G1Point { bytes: (pa + pb).to_affine().to_bytes().as_ref().to_vec() }
}

/// Subtract one G1 point from another and affinize.
///
/// Relies on halo2curves' G1 point subtraction and `to_affine`.
#[verifier::external_body]
pub(crate) fn g1_sub(a: &G1Point, b: &G1Point) -> (r: G1Point)
    ensures
        r@ == g1_sub_pt(a@, b@),
{
    let mut ra = G1Compressed::default();
    ra.as_mut().copy_from_slice(a.as_bytes());
    let pa: G1Affine = Option::from(G1Affine::from_bytes(&ra)).unwrap();
    let mut rb = G1Compressed::default();
    rb.as_mut().copy_from_slice(b.as_bytes());
    let pb: G1Affine = Option::from(G1Affine::from_bytes(&rb)).unwrap();
    G1Point { bytes: (pa - pb).to_affine().to_bytes().as_ref().to_vec() }
}

/// Multiply G2's fixed generator by a scalar and affinize.
///
/// Relies on halo2curves' `G2Affine::generator`, `*` and `to_affine`.
#[verifier::external_body]
pub(crate) fn g2_mul_base(s: &Scalar) -> (r: G2Point)
    ensures
        r@ == g2_base_scale(s.val()),
{
    let g = G2Affine::generator();
    let sarr: [u8; 32] = s.to_bytes().as_slice().try_into().unwrap();
    let fs: Fr = Option::from(Fr::from_repr(sarr)).unwrap();
    G2Point { bytes: (g * fs).to_affine().to_bytes().as_ref().to_vec() }
}

/// Map a domain prefix and an input to a G1 point.
///
/// Relies on halo2curves' Shallue-van de Woestijne hash-to-curve for BN254
/// G1 (curve id "bn256_g1", constant Z = 1): deterministic in the domain
/// prefix and the input, total for finite inputs. halo2curves asserts that
/// 18 bytes, the method name "SVDW", the curve id and the domain prefix
/// together stay under 256 bytes, which allows the prefix's UTF-8 encoding
/// at most 225; the precondition keeps the call away from that assertion.
#[verifier::external_body]
pub fn hash_to_curve(domain_prefix: &str, input: &[u8]) -> (r: G1Point)
    requires
        domain_prefix.spec_bytes().len() <= 225,
    ensures
        r@ == hash_to_g1(domain_prefix@, input@),
{
    let hasher = <halo2curves::bn256::G1 as halo2curves::CurveExt>::hash_to_curve(domain_prefix);
    G1Point { bytes: hasher(input).to_affine().to_bytes().as_ref().to_vec() }
}

/// Whether `e(p1, q1) == e(p2, q2)`.
///
/// Relies on halo2curves' optimal Ate `pairing` over BN254 and on `Gt`'s
/// equality; the two calls are of the one function that [`gt_pairing`]
/// names.
#[verifier::external_body]
pub(crate) fn pairing_check(p1: &G1Point, q1: &G2Point, p2: &G1Point, q2: &G2Point) -> (r: bool)
    ensures
        r == (gt_pairing(p1@, q1@) == gt_pairing(p2@, q2@)),
{
    let mut r1 = G1Compressed::default();
    r1.as_mut().copy_from_slice(p1.as_bytes());
    let mut r2 = G2Compressed::default();
    r2.as_mut().copy_from_slice(q1.as_bytes());
    let mut r3 = G1Compressed::default();
    r3.as_mut().copy_from_slice(p2.as_bytes());
    let mut r4 = G2Compressed::default();
    r4.as_mut().copy_from_slice(q2.as_bytes());
    let e1 = pairing(&Option::from(G1Affine::from_bytes(&r1)).unwrap(), &Option::from(G2Affine::from_bytes(&r2)).unwrap());
    let e2 = pairing(&Option::from(G1Affine::from_bytes(&r3)).unwrap(), &Option::from(G2Affine::from_bytes(&r4)).unwrap());
    e1 == e2
}

/// The 64-byte Blake2b-512 digest of a byte string.
///
/// Relies on blake2b_simd's `blake2b`, whose default output length is 64
/// bytes.
#[verifier::external_body]
pub(crate) fn blake2b_hash(data: &[u8]) -> (r: Vec<u8>)
    ensures
        r@ == blake2b_512(data@),
        r@.len() == 64,
{
    blake2b_simd::blake2b(data).as_bytes().to_vec()
}

} // verus!
