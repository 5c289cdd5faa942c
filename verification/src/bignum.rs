//! Arbitrary-precision natural numbers.
//!
//! [`Natural`] stores a number as its little-endian 32-bit limbs, the plain
//! representation that `nat_of_limbs` maps to a mathematical value. The
//! arithmetic itself — modular exponentiation, multiplication, subtraction,
//! comparison, uniform sampling — is delegated to `num_bigint` through trusted
//! wrappers whose contracts state the value of the result.

use vstd::prelude::*;
use crate::arith::{nat_of_limbs, nat_of_be_bytes, pow_mod};
use num_bigint::BigUint;
use num_bigint::RandBigInt;

verus! {

/// An arbitrary-precision natural number.
#[derive(Clone, Debug, PartialEq, Eq)]
pub struct Natural {
    limbs: Vec<u32>,
}

#[verifier::external_type_specification]
#[verifier::external_body]
pub struct ExThreadRng(rand::rngs::ThreadRng);

/// Relies on `rand::thread_rng`: a handle to the thread-local
/// cryptographically secure generator.
#[verifier::external_body]
pub(crate) fn fresh_rng() -> rand::rngs::ThreadRng {
    rand::thread_rng()
}

/// Relies on `num_bigint::BigUint::modpow`: returns
/// `(base ^ exponent) % modulus`; it panics on a zero modulus, which the
/// precondition rules out. `BigUint::new` and `to_u32_digits` convert between
/// limb vectors and `BigUint`.
#[verifier::external_body]
pub(crate) fn big_modpow(base: &Natural, exponent: &Natural, modulus: &Natural) -> (r: Natural)
    requires
        modulus.value() > 0,
    ensures
        r.value() == pow_mod(base.value(), exponent.value(), modulus.value()),
{
    let b = BigUint::new(base.limbs.clone());
    let e = BigUint::new(exponent.limbs.clone());
    let m = BigUint::new(modulus.limbs.clone());
    Natural { limbs: b.modpow(&e, &m).to_u32_digits() }
}

/// Relies on `Mul for &BigUint`: returns the product of the two values.
#[verifier::external_body]
pub(crate) fn big_mul(a: &Natural, b: &Natural) -> (r: Natural)
    ensures
        r.value() == a.value() * b.value(),
{
    let x = BigUint::new(a.limbs.clone());
    let y = BigUint::new(b.limbs.clone());
    Natural { limbs: (&x * &y).to_u32_digits() }
}

/// Relies on `Sub for &BigUint`: returns the difference of the two values; it
/// panics on underflow, which the precondition rules out.
#[verifier::external_body]
pub(crate) fn big_sub(a: &Natural, b: &Natural) -> (r: Natural)
    requires
        b.value() <= a.value(),
    ensures
        r.value() == a.value() - b.value(),
{
    let x = BigUint::new(a.limbs.clone());
    let y = BigUint::new(b.limbs.clone());
    Natural { limbs: (&x - &y).to_u32_digits() }
}

/// Relies on `Ord for BigUint`: the comparison follows the numeric values.
#[verifier::external_body]
pub(crate) fn big_ge(a: &Natural, b: &Natural) -> (r: bool)
    ensures
        r == (a.value() >= b.value()),
{
    BigUint::new(a.limbs.clone()) >= BigUint::new(b.limbs.clone())
}

/// Relies on `PartialEq for BigUint`: the equality follows the numeric values.
#[verifier::external_body]
pub(crate) fn big_eq(a: &Natural, b: &Natural) -> (r: bool)
    ensures
        r == (a.value() == b.value()),
{
    BigUint::new(a.limbs.clone()) == BigUint::new(b.limbs.clone())
}

/// Relies on `num_bigint::BigUint::from_bytes_be`: the value denoted by a
/// big-endian byte string.
#[verifier::external_body]
pub(crate) fn big_from_bytes_be(bytes: &Vec<u8>) -> (r: Natural)
    ensures
        r.value() == nat_of_be_bytes(bytes@),
{
    Natural { limbs: BigUint::from_bytes_be(bytes).to_u32_digits() }
}

/// Relies on `num_bigint::RandBigInt::gen_biguint_below`: a uniform sample
/// from `[0, bound)`; it panics on a zero bound, which the precondition rules
/// out.
#[verifier::external_body]
pub(crate) fn big_random_below(rng: &mut rand::rngs::ThreadRng, bound: &Natural) -> (r: Natural)
    requires
        bound.value() > 0,
    ensures
        r.value() < bound.value(),
{
    Natural { limbs: rng.gen_biguint_below(&BigUint::new(bound.limbs.clone())).to_u32_digits() }
}

impl Natural {
    /// The mathematical value this number denotes.
    pub closed spec fn value(&self) -> nat {
        nat_of_limbs(self.limbs@)
    }

    /// The natural number with the given value.
    pub fn from_u64(v: u64) -> (r: Natural)
        ensures
            r.value() == v,
    {
        let lo: u32 = (v % 0x1_0000_0000) as u32;
        let hi: u32 = (v / 0x1_0000_0000) as u32;
        let mut limbs: Vec<u32> = Vec::new();
        if hi != 0 {
            limbs.push(lo);
            limbs.push(hi);
            proof {
                let s = limbs@;
                let tail = s.subrange(1, 2);
                assert(tail =~= seq![hi]);
                assert(tail.subrange(1, 1) =~= Seq::<u32>::empty());
                assert(nat_of_limbs(tail.subrange(1, 1)) == 0);
                assert(nat_of_limbs(tail) == hi);
                assert(nat_of_limbs(s) == lo + 0x1_0000_0000 * nat_of_limbs(tail));
                vstd::arithmetic::div_mod::lemma_fundamental_div_mod(v as int, 0x1_0000_0000);
            }
        } else if lo != 0 {
            limbs.push(lo);
            proof {
                let s = limbs@;
                assert(s.subrange(1, 1) =~= Seq::<u32>::empty());
                assert(nat_of_limbs(s.subrange(1, 1)) == 0);
                assert(nat_of_limbs(s) == lo);
                vstd::arithmetic::div_mod::lemma_fundamental_div_mod(v as int, 0x1_0000_0000);
            }
        } else {
            proof {
                vstd::arithmetic::div_mod::lemma_fundamental_div_mod(v as int, 0x1_0000_0000);
            }
        }
        Natural { limbs }
    }

    /// The value denoted by a big-endian byte string; leading zero bytes are
    /// allowed and do not change the value.
    pub fn from_bytes_be(bytes: &Vec<u8>) -> (r: Natural)
        ensures
            r.value() == nat_of_be_bytes(bytes@),
    {
        big_from_bytes_be(bytes)
    }

    /// Numeric comparison.
    pub fn lt(&self, other: &Natural) -> (r: bool)
        ensures
            r == (self.value() < other.value()),
    {
        !big_ge(self, other)
    }
}

} // verus!
