//! Byte strings: their little-endian value, and small executable helpers.

use vstd::prelude::*;

verus! {

/// The value of a byte string read as a little-endian natural number.
pub open spec fn le_bytes_nat(s: Seq<u8>) -> nat
    decreases s.len(),
{
    if s.len() == 0 {
        0
    } else {
        s[0] as nat + 256 * le_bytes_nat(s.drop_first())
    }
}

/// The first byte and the rest of a byte string are its value's remainder
/// and quotient by 256.
proof fn lemma_le_bytes_nat_split(s: Seq<u8>)
    requires
        s.len() > 0,
    ensures
        le_bytes_nat(s) % 256 == s[0] as nat,
        le_bytes_nat(s) / 256 == le_bytes_nat(s.drop_first()),
{
    vstd::arithmetic::div_mod::lemma_fundamental_div_mod_converse(
        le_bytes_nat(s) as int,
        256,
        le_bytes_nat(s.drop_first()) as int,
        s[0] as int,
    );
}

/// Byte strings of equal length with equal little-endian values are equal:
/// the little-endian encoding is injective at a fixed length.
pub proof fn lemma_le_bytes_nat_injective(a: Seq<u8>, b: Seq<u8>)
    requires
        a.len() == b.len(),
        le_bytes_nat(a) == le_bytes_nat(b),
    ensures
        a == b,
    decreases a.len(),
{
    if a.len() == 0 {
        assert(a =~= b);
    } else {
        lemma_le_bytes_nat_split(a);
        lemma_le_bytes_nat_split(b);
        lemma_le_bytes_nat_injective(a.drop_first(), b.drop_first());
        assert forall|i: int| 0 <= i < a.len() implies a[i] == b[i] by {
            if i > 0 {
                assert(a.drop_first()[i - 1] == a[i]);
                assert(b.drop_first()[i - 1] == b[i]);
            }
        }
        assert(a =~= b);
    }
}

/// Appending a byte adds its value at the next power of 256.
pub proof fn lemma_le_bytes_nat_push(s: Seq<u8>, b: u8)
    ensures
        le_bytes_nat(s.push(b)) == le_bytes_nat(s) + b * vstd::arithmetic::power::pow(
            256,
            s.len(),
        ),
    decreases s.len(),
{
    if s.len() == 0 {
        vstd::arithmetic::power::lemma_pow0(256);
        assert(s.push(b).drop_first() =~= Seq::<u8>::empty());
        assert(s.push(b)[0] == b);
        assert(le_bytes_nat(s.push(b)) == b as nat + 256 * le_bytes_nat(
            s.push(b).drop_first(),
        ));
    } else {
        lemma_le_bytes_nat_push(s.drop_first(), b);
        assert(s.push(b).drop_first() =~= s.drop_first().push(b));
        assert(s.push(b)[0] == s[0]);
        let p = vstd::arithmetic::power::pow(256, (s.len() - 1) as nat);
        vstd::arithmetic::power::lemma_pow1(256);
        vstd::arithmetic::power::lemma_pow_adds(256, 1, (s.len() - 1) as nat);
        assert(vstd::arithmetic::power::pow(256, s.len()) == 256 * p);
        assert(le_bytes_nat(s.push(b)) == s[0] as nat + 256 * le_bytes_nat(
            s.drop_first().push(b),
        ));
        assert(le_bytes_nat(s.drop_first().push(b)) == le_bytes_nat(s.drop_first()) + b * p);
        assert(256 * (le_bytes_nat(s.drop_first()) + b * p) == 256 * le_bytes_nat(
            s.drop_first(),
        ) + b * (256 * p)) by (nonlinear_arith);
        assert(le_bytes_nat(s) == s[0] as nat + 256 * le_bytes_nat(s.drop_first()));
    }
}

/// Whether two byte strings are equal.
pub fn bytes_eq(a: &[u8], b: &[u8]) -> (r: bool)
    ensures
        r == (a@ == b@),
{
    if a.len() != b.len() {
        return false;
    }
    let mut i: usize = 0;
    while i < a.len()
        invariant
            0 <= i <= a@.len(),
            a@.len() == b@.len(),
            forall|j: int| 0 <= j < i ==> a@[j] == b@[j],
        decreases a@.len() - i,
    {
        if a[i] != b[i] {
            return false;
        }
        i += 1;
    }
    proof {
        assert(a@ =~= b@);
    }
    true
}

/// Append a byte string to the end of a vector.
pub fn append_bytes(out: &mut Vec<u8>, src: &[u8])
    ensures
        final(out)@ == old(out)@ + src@,
{
    let mut i: usize = 0;
    while i < src.len()
        invariant
            0 <= i <= src@.len(),
            out@ == old(out)@ + src@.take(i as int),
        decreases src@.len() - i,
    {
        out.push(src[i]);
        proof {
            assert(src@.take(i as int).push(src@[i as int]) =~= src@.take(i + 1));
        }
        i += 1;
    }
    proof {
        assert(src@.take(src@.len() as int) =~= src@);
    }
}

/// Copy a byte string into a fresh vector.
pub fn copy_bytes(src: &[u8]) -> (r: Vec<u8>)
    ensures
        r@ == src@,
{
    let mut out: Vec<u8> = Vec::new();
    append_bytes(&mut out, src);
    proof {
        assert(out@ =~= src@);
    }
    out
}

} // verus!
