//! Arbitrary-precision unsigned integers for the protocol arithmetic.
//!
//! The executable representation is `num_bigint::BigUint`; every contract
//! speaks of the mathematical value `value_of` of such a number and, for the
//! wire encoding, of big-endian byte sequences.

use vstd::arithmetic::div_mod::lemma_fundamental_div_mod;
use vstd::arithmetic::power::pow;
use vstd::prelude::*;

use num_bigint::BigUint;

verus! {

#[verifier::external_type_specification]
#[verifier::external_body]
pub struct ExBigUint(BigUint);

/// The natural number that a `BigUint` holds.
pub uninterp spec fn value_of(b: BigUint) -> nat;

/// `b` raised to the `e`-th power, reduced modulo `m`.
pub open spec fn pow_mod(b: nat, e: nat, m: nat) -> nat
    recommends
        m > 0,
{
    (pow(b as int, e) % (m as int)) as nat
}

/// The natural number that a big-endian byte string denotes.
pub open spec fn be_bytes_value(s: Seq<u8>) -> nat
    decreases s.len(),
{
    if s.len() == 0 {
        0
    } else {
        (be_bytes_value(s.drop_last()) * 256 + s.last()) as nat
    }
}

/// The big-endian digits of `n`, with no leading zero (empty for zero).
pub open spec fn be_digits(n: nat) -> Seq<u8>
    decreases n,
{
    if n == 0 {
        Seq::empty()
    } else {
        be_digits(n / 256) + seq![(n % 256) as u8]
    }
}

/// The canonical big-endian encoding of `n`: no leading zero bytes,
/// except that zero is encoded as the single byte `0`.
pub open spec fn be_bytes_of(n: nat) -> Seq<u8> {
    if n == 0 {
        seq![0u8]
    } else {
        be_digits(n)
    }
}

/// Relies on `num_bigint::BigUint::modpow`: returns `self^exponent % modulus`
/// and panics when the modulus is zero.
#[verifier::external_body]
pub(crate) fn big_modpow(base: &BigUint, exponent: &BigUint, modulus: &BigUint) -> (r: BigUint)
    requires
        value_of(*modulus) > 0,
    ensures
        value_of(r) == pow_mod(value_of(*base), value_of(*exponent), value_of(*modulus)),
{
    base.modpow(exponent, modulus)
}

/// Relies on `Mul for &num_bigint::BigUint`: exact product of the two values.
#[verifier::external_body]
pub(crate) fn big_mul(a: &BigUint, b: &BigUint) -> (r: BigUint)
    ensures
        value_of(r) == value_of(*a) * value_of(*b),
{
    a * b
}

/// Relies on `Sub for &num_bigint::BigUint`: exact difference; panics when
/// the subtrahend exceeds the minuend, which the precondition rules out.
#[verifier::external_body]
pub(crate) fn big_sub(a: &BigUint, b: &BigUint) -> (r: BigUint)
    requires
        value_of(*b) <= value_of(*a),
    ensures
        value_of(r) == value_of(*a) - value_of(*b),
{
    a - b
}

/// Relies on `Rem for &num_bigint::BigUint`: the remainder of division,
/// in `[0, m)`; panics on a zero divisor, which the precondition rules out.
#[verifier::external_body]
pub(crate) fn big_rem(a: &BigUint, m: &BigUint) -> (r: BigUint)
    requires
        value_of(*m) > 0,
    ensures
        value_of(r) == value_of(*a) % value_of(*m),
{
    a % m
}

/// Relies on `PartialOrd for num_bigint::BigUint`, which orders by value.
#[verifier::external_body]
pub(crate) fn big_ge(a: &BigUint, b: &BigUint) -> (r: bool)
    ensures
        r == (value_of(*a) >= value_of(*b)),
{
    a >= b
}

/// Relies on `PartialEq for num_bigint::BigUint`: numbers are kept in a
/// normalized form, so structural equality is equality of values.
#[verifier::external_body]
pub(crate) fn big_eq(a: &BigUint, b: &BigUint) -> (r: bool)
    ensures
        r == (value_of(*a) == value_of(*b)),
{
    a == b
}

/// Relies on `Clone for num_bigint::BigUint`: the copy holds the same value.
#[verifier::external_body]
pub(crate) fn big_clone(a: &BigUint) -> (r: BigUint)
    ensures
        value_of(r) == value_of(*a),
{
    a.clone()
}

/// Relies on `From<u32> for num_bigint::BigUint`: the value is preserved.
#[verifier::external_body]
pub(crate) fn big_from_u32(x: u32) -> (r: BigUint)
    ensures
        value_of(r) == x as nat,
{
    BigUint::from(x)
}

/// Relies on `num_bigint::BigUint::from_bytes_be`: reads the bytes as an
/// unsigned big-endian number (the empty slice reads as zero).
#[verifier::external_body]
pub(crate) fn big_from_bytes_be(bytes: &[u8]) -> (r: BigUint)
    ensures
        value_of(r) == be_bytes_value(bytes@),
{
    BigUint::from_bytes_be(bytes)
}

/// Relies on `num_bigint::BigUint::to_bytes_be`: writes the value in
/// big-endian order with no leading zero byte, and zero as the byte `0`.
#[verifier::external_body]
pub(crate) fn big_to_bytes_be(a: &BigUint) -> (r: Vec<u8>)
    ensures
        r@ == be_bytes_of(value_of(*a)),
{
    a.to_bytes_be()
}

/// A big-endian byte string is worth at least its leading byte.
pub proof fn lemma_be_bytes_value_at_least_first(s: Seq<u8>)
    requires
        s.len() > 0,
    ensures
        be_bytes_value(s) >= s.first(),
    decreases s.len(),
{
    if s.len() > 1 {
        lemma_be_bytes_value_at_least_first(s.drop_last());
        assert(s.drop_last().first() == s.first());
        assert(be_bytes_value(s.drop_last()) * 256 >= s.first() * 256);
    }
}

proof fn lemma_be_digits_value(n: nat)
    ensures
        be_bytes_value(be_digits(n)) == n,
    decreases n,
{
    if n > 0 {
        lemma_be_digits_value(n / 256);
        let s = be_digits(n);
        assert(s.drop_last() =~= be_digits(n / 256));
        lemma_fundamental_div_mod(n as int, 256);
    }
}

/// Decoding the canonical big-endian encoding of any natural number
/// recovers that number exactly.
pub proof fn lemma_be_bytes_roundtrip(n: nat)
    ensures
        be_bytes_value(be_bytes_of(n)) == n,
{
    if n == 0 {
        let s = be_bytes_of(0);
        assert(s.len() == 1 && s.last() == 0u8);
        assert(s.drop_last() =~= Seq::<u8>::empty());
        assert(be_bytes_value(s) == be_bytes_value(s.drop_last()) * 256 + s.last());
    } else {
        lemma_be_digits_value(n);
    }
}

/// Re-encode a big-endian byte string in canonical form. The number the
/// bytes denote is unchanged; only leading zeros are dropped (and zero
/// becomes the single byte `0`).
pub fn recode_be_bytes(bytes: &[u8]) -> (r: Vec<u8>)
    ensures
        r@ == be_bytes_of(be_bytes_value(bytes@)),
        be_bytes_value(r@) == be_bytes_value(bytes@),
{
    proof {
        lemma_be_bytes_roundtrip(be_bytes_value(bytes@));
    }
    let n = big_from_bytes_be(bytes);
    big_to_bytes_be(&n)
}

} // verus!
