//! The BN254 scalar field: canonically encoded elements and their arithmetic.

use vstd::prelude::*;

use crate::bytes::{bytes_eq, copy_bytes, le_bytes_nat, lemma_le_bytes_nat_injective};
use halo2curves::ff::{Field, FromUniformBytes, PrimeField};

verus! {

/// The order `r` of BN254's scalar field.
pub open spec fn fr_order() -> nat {
    0x30644e72e131a029b85045b68181585d2833e84879b9709143e1f593f0000001nat
}

/// Names what halo2curves' `Fr::invert` returns on a nonzero element: the
/// multiplicative inverse modulo [`fr_order`], a function of the element
/// alone.
pub uninterp spec fn fr_inv_of(a: nat) -> nat;

/// An element of the scalar field, held as its canonical 32-byte
/// little-endian encoding: what halo2curves' `Fr::to_repr` produces and
/// `Fr::from_repr` accepts.
#[derive(Debug)]
pub struct Scalar {
    bytes: Vec<u8>,
}

impl View for Scalar {
    type V = Seq<u8>;

    closed spec fn view(&self) -> Seq<u8> {
        self.bytes@
    }
}

impl Scalar {
    /// Every scalar in existence satisfies this invariant: 32 bytes whose
    /// little-endian value lies below the field order. `use_type_invariant`
    /// recovers it for any scalar held by executable code.
    #[verifier::type_invariant]
    pub closed spec fn canonical(self) -> bool {
        self.bytes@.len() == 32 && le_bytes_nat(self.bytes@) < fr_order()
    }

    /// The field element as a natural number below [`fr_order`].
    pub closed spec fn val(self) -> nat {
        le_bytes_nat(self.bytes@)
    }

    /// What canonical encoding means: 32 bytes whose little-endian value,
    /// the element's value, lies below the field order.
    pub proof fn lemma_canonical(self)
        requires
            self.canonical(),
        ensures
            self@.len() == 32,
            self.val() == le_bytes_nat(self@),
            self.val() < fr_order(),
    {
    }

    /// Decode a canonical 32-byte little-endian encoding.
    ///
    /// Relies on halo2curves' `Fr::from_repr`, which accepts exactly the
    /// 32-byte little-endian encodings of the integers below the field
    /// order.
    #[verifier::external_body]
    pub fn from_bytes(bytes: &[u8]) -> (r: Option<Scalar>)
        ensures
            match r {
                Some(s) => s@ == bytes@ && bytes@.len() == 32 && le_bytes_nat(bytes@)
                    < fr_order(),
                None => !(bytes@.len() == 32 && le_bytes_nat(bytes@) < fr_order()),
            },
    {
        let arr: [u8; 32] = match bytes.try_into() {
            Ok(arr) => arr,
            Err(_) => return None,
        };
        if bool::from(halo2curves::bn256::Fr::from_repr(arr).is_some()) {
            Some(Scalar { bytes: bytes.to_vec() })
        } else {
            None
        }
    }

    /// The canonical 32-byte little-endian encoding.
    pub fn to_bytes(&self) -> (r: Vec<u8>)
        ensures
            r@ == self@,
    {
        copy_bytes(self.bytes.as_slice())
    }

    /// The field element of a small integer, written in little-endian
    /// bytes; every `u64` lies below the field order, so the element's
    /// value is the integer itself.
    pub fn from_u64(n: u64) -> (r: Scalar)
        ensures
            r.val() == n as nat,
    {
        let mut bytes: Vec<u8> = Vec::new();
        let mut m: u64 = n;
        let mut i: usize = 0;
        proof {
            vstd::arithmetic::power::lemma_pow0(256);
            reveal_with_fuel(vstd::arithmetic::power::pow, 9);
            assert(vstd::arithmetic::power::pow(256, 8) == 0x10000000000000000);
        }
        while i < 8
            invariant
                i <= 8,
                bytes@.len() == i,
                le_bytes_nat(bytes@) + (m as int) * vstd::arithmetic::power::pow(256, i as nat)
                    == n as int,
                (m as int) < vstd::arithmetic::power::pow(256, (8 - i) as nat),
            decreases 8 - i,
        {
            let ghost om: u64 = m;
            let ghost obytes = bytes@;
            let b: u8 = (m & 0xff) as u8;
            bytes.push(b);
            m = m >> 8;
            i += 1;
            proof {
                assert(om & 0xff < 256) by (bit_vector);
                assert(om & 0xff == om % 256) by (bit_vector);
                assert(om >> 8 == om / 256) by (bit_vector);
                vstd::arithmetic::div_mod::lemma_fundamental_div_mod(om as int, 256);
                crate::bytes::lemma_le_bytes_nat_push(obytes, b);
                let p = vstd::arithmetic::power::pow(256, (i - 1) as nat);
                vstd::arithmetic::power::lemma_pow1(256);
                vstd::arithmetic::power::lemma_pow_adds(256, 1, (i - 1) as nat);
                assert(vstd::arithmetic::power::pow(256, i as nat) == 256 * p);
                assert((b as int) * p + (m as int) * (256 * p) == (om as int) * p)
                    by (nonlinear_arith)
                    requires
                        (om as int) == (b as int) + 256 * (m as int),
                ;
                let q = vstd::arithmetic::power::pow(256, (8 - i) as nat);
                vstd::arithmetic::power::lemma_pow_adds(256, 1, (8 - i) as nat);
                assert(vstd::arithmetic::power::pow(256, (8 - (i - 1)) as nat) == 256 * q);
                assert((m as int) < q) by (nonlinear_arith)
                    requires
                        (om as int) == (b as int) + 256 * (m as int),
                        0 <= (b as int),
                        (om as int) < 256 * q,
                ;
            }
        }
        while i < 32
            invariant
                8 <= i <= 32,
                bytes@.len() == i,
                le_bytes_nat(bytes@) == n as nat,
            decreases 32 - i,
        {
            let ghost obytes = bytes@;
            bytes.push(0);
            i += 1;
            proof {
                crate::bytes::lemma_le_bytes_nat_push(obytes, 0);
            }
        }
        Scalar { bytes }
    }

    /// A uniformly sampled field element.
    ///
    /// Relies on halo2curves' `Fr::random`, which reduces 512 uniform bits
    /// into the field; nothing is assumed of the value drawn.
    #[verifier::external_body]
    pub fn random<R: rand_core::RngCore>(rng: &mut R) -> (r: Scalar) {
        let s = halo2curves::bn256::Fr::random(rng);
        Scalar { bytes: s.to_repr().to_vec() }
    }
}

impl Clone for Scalar {
    /// A clone is the same field element.
    fn clone(&self) -> (r: Self)
        ensures
            r@ == self@,
    {
        proof {
            use_type_invariant(&*self);
        }
        Scalar { bytes: copy_bytes(self.bytes.as_slice()) }
    }
}

/// Whether two scalars are the same field element.
pub fn scalar_eq(a: &Scalar, b: &Scalar) -> (r: bool)
    ensures
        r == (a.val() == b.val()),
        r == (a@ == b@),
{
    let r = bytes_eq(a.bytes.as_slice(), b.bytes.as_slice());
    proof {
        use_type_invariant(&*a);
        use_type_invariant(&*b);
        if !r && a.val() == b.val() {
            lemma_le_bytes_nat_injective(a.bytes@, b.bytes@);
        }
    }
    r
}

/// Reduce a 64-byte digest into the field.
///
/// Relies on halo2curves' `FromUniformBytes<64> for Fr`: the bytes are read
/// as a 512-bit little-endian integer and reduced by the field order.
#[verifier::external_body]
pub(crate) fn fr_from_uniform(bytes: &[u8]) -> (r: Scalar)
    requires
        bytes@.len() == 64,
    ensures
        r.val() == le_bytes_nat(bytes@) % fr_order(),
{
    let arr: [u8; 64] = bytes.try_into().expect("a 64-byte digest");
    let s = halo2curves::bn256::Fr::from_uniform_bytes(&arr);
    Scalar { bytes: s.to_repr().to_vec() }
}

/// Add two field elements.
///
/// Relies on halo2curves' `Fr` addition, with `from_repr`/`to_repr` moving
/// between the canonical encodings: addition modulo the field order.
#[verifier::external_body]
pub(crate) fn fr_add(a: &Scalar, b: &Scalar) -> (r: Scalar)
    ensures
        r.val() == (a.val() + b.val()) % fr_order(),
{
    let fa: halo2curves::bn256::Fr = Option::from(halo2curves::bn256::Fr::from_repr(a.bytes.as_slice().try_into().unwrap())).unwrap();
    let fb: halo2curves::bn256::Fr = Option::from(halo2curves::bn256::Fr::from_repr(b.bytes.as_slice().try_into().unwrap())).unwrap();
    Scalar { bytes: (fa + fb).to_repr().to_vec() }
}

/// Subtract one field element from another.
///
/// Relies on halo2curves' `Fr` subtraction, with `from_repr`/`to_repr`
/// moving between the canonical encodings: subtraction modulo the field
/// order.
#[verifier::external_body]
pub(crate) fn fr_sub(a: &Scalar, b: &Scalar) -> (r: Scalar)
    ensures
        r.val() == (a.val() + fr_order() - b.val()) % (fr_order() as int),
{
    let fa: halo2curves::bn256::Fr = Option::from(halo2curves::bn256::Fr::from_repr(a.bytes.as_slice().try_into().unwrap())).unwrap();
    let fb: halo2curves::bn256::Fr = Option::from(halo2curves::bn256::Fr::from_repr(b.bytes.as_slice().try_into().unwrap())).unwrap();
    Scalar { bytes: (fa - fb).to_repr().to_vec() }
}

/// Multiply two field elements.
///
/// Relies on halo2curves' `Fr` multiplication, with `from_repr`/`to_repr`
/// moving between the canonical encodings: multiplication modulo the field
/// order.
#[verifier::external_body]
pub(crate) fn fr_mul(a: &Scalar, b: &Scalar) -> (r: Scalar)
    ensures
        r.val() == (a.val() * b.val()) % fr_order(),
{
    let fa: halo2curves::bn256::Fr = Option::from(halo2curves::bn256::Fr::from_repr(a.bytes.as_slice().try_into().unwrap())).unwrap();
    let fb: halo2curves::bn256::Fr = Option::from(halo2curves::bn256::Fr::from_repr(b.bytes.as_slice().try_into().unwrap())).unwrap();
    Scalar { bytes: (fa * fb).to_repr().to_vec() }
}

/// Invert a nonzero field element.
///
/// Relies on halo2curves' `Fr::invert`: on a nonzero element it returns the
/// multiplicative inverse, the element named by [`fr_inv_of`].
#[verifier::external_body]
pub(crate) fn fr_invert(a: &Scalar) -> (r: Scalar)
    requires
        a.val() != 0,
    ensures
        r.val() == fr_inv_of(a.val()),
        (r.val() * a.val()) % fr_order() == 1,
{
    let fa: halo2curves::bn256::Fr = Option::from(halo2curves::bn256::Fr::from_repr(a.bytes.as_slice().try_into().unwrap())).unwrap();
    let inv: halo2curves::bn256::Fr = Option::from(fa.invert()).unwrap();
    Scalar { bytes: inv.to_repr().to_vec() }
}

} // verus!
