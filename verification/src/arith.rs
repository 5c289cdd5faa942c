//! Mathematical model of big natural numbers and modular arithmetic.
//!
//! A big natural is represented in executable code by its little-endian
//! sequence of 32-bit limbs (see [`crate::Natural`]); `nat_of_limbs` gives the
//! value such a sequence denotes, and `nat_of_be_bytes` the value denoted by a
//! big-endian byte string. `pow_mod` is the modular exponentiation that every
//! operation of the protocol is built from.

use vstd::prelude::*;
use vstd::calc;
use vstd::arithmetic::power::pow;
use vstd::arithmetic::power::lemma1_pow;
use vstd::arithmetic::power::lemma_pow_adds;
use vstd::arithmetic::power::lemma_pow_multiplies;
use vstd::arithmetic::power::lemma_pow_mod_noop;
use vstd::arithmetic::div_mod::lemma_fundamental_div_mod;
use vstd::arithmetic::div_mod::lemma_mod_bound;
use vstd::arithmetic::div_mod::lemma_mul_mod_noop_left;

verus! {

/// Value of a little-endian sequence of 32-bit limbs.
pub open spec fn nat_of_limbs(s: Seq<u32>) -> nat
    decreases s.len(),
{
    if s.len() == 0 {
        0
    } else {
        s[0] as nat + 0x1_0000_0000 * nat_of_limbs(s.subrange(1, s.len() as int))
    }
}

/// Value of a big-endian byte string (the empty string denotes zero).
pub open spec fn nat_of_be_bytes(s: Seq<u8>) -> nat
    decreases s.len(),
{
    if s.len() == 0 {
        0
    } else {
        256 * nat_of_be_bytes(s.subrange(0, s.len() - 1)) + s[s.len() - 1] as nat
    }
}

/// `base^exponent mod modulus` over the mathematical integers.
pub open spec fn pow_mod(base: nat, exponent: nat, modulus: nat) -> nat
    recommends
        modulus > 0,
{
    (pow(base as int, exponent) % (modulus as int)) as nat
}

/// A nonempty big-endian byte string denotes at least its leading byte.
pub proof fn lemma_be_bytes_at_least_first(s: Seq<u8>)
    requires
        s.len() > 0,
    ensures
        nat_of_be_bytes(s) >= s[0],
    decreases s.len(),
{
    if s.len() == 1 {
        assert(s.subrange(0, 0) =~= Seq::<u8>::empty());
    } else {
        let prefix = s.subrange(0, s.len() - 1);
        lemma_be_bytes_at_least_first(prefix);
        assert(prefix[0] == s[0]);
    }
}

/// When `g^q ≡ 1 (mod p)`, the exponent of a power of `g` can be reduced
/// modulo `q` without changing the result modulo `p`.
pub proof fn lemma_pow_mod_exp_reduce(g: nat, e: nat, p: nat, q: nat)
    requires
        p > 0,
        q > 0,
        pow_mod(g, q, p) == 1,
    ensures
        pow_mod(g, e, p) == pow_mod(g, e % q, p),
{
    let gi = g as int;
    let pi = p as int;
    let qi = q as int;
    let d = e / q;
    let r = e % q;
    lemma_fundamental_div_mod(e as int, qi);
    assert(e == q * d + r);
    lemma_pow_adds(gi, (q * d) as nat, r);
    lemma_pow_multiplies(gi, q, d);
    lemma_mod_bound(pow(gi, q), pi);
    assert(pow(gi, q) % pi == 1);
    calc! {
        (==)
        pow(gi, e) % pi; {}
        (pow(gi, (q * d) as nat) * pow(gi, r)) % pi; {
            lemma_mul_mod_noop_left(pow(gi, (q * d) as nat), pow(gi, r), pi);
        }
        ((pow(gi, (q * d) as nat) % pi) * pow(gi, r)) % pi; {
            lemma_pow_mod_noop(pow(gi, q), d, pi);
            lemma1_pow(d);
            assert(pow(gi, (q * d) as nat) % pi == pow(pow(gi, q), d) % pi);
            assert(pow(pow(gi, q) % pi, d) == pow(1, d));
            assert(pow(gi, (q * d) as nat) % pi == 1int % pi);
        }
        ((1int % pi) * pow(gi, r)) % pi; {
            lemma_mul_mod_noop_left(1, pow(gi, r), pi);
        }
        (1int * pow(gi, r)) % pi; {}
        pow(gi, r) % pi;
    }
    lemma_mod_bound(pow(gi, e), pi);
    lemma_mod_bound(pow(gi, r), pi);
}

/// Powers of `g` agree modulo `p` whenever their exponents agree modulo `q`,
/// provided `g^q ≡ 1 (mod p)`.
pub proof fn lemma_pow_mod_congruent(g: nat, a: nat, b: nat, p: nat, q: nat)
    requires
        p > 0,
        q > 0,
        pow_mod(g, q, p) == 1,
        a % q == b % q,
    ensures
        pow_mod(g, a, p) == pow_mod(g, b, p),
{
    lemma_pow_mod_exp_reduce(g, a, p, q);
    lemma_pow_mod_exp_reduce(g, b, p, q);
}

} // verus!
