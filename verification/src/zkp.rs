//! The prover/verifier arithmetic of the discrete-logarithm equality proof.
//!
//! A [`ZKP`] instance holds the group description `(p, q, alpha, beta)`: `p`
//! is the prime modulus, `q` the prime order of the subgroup generated by
//! `alpha` and `beta`. The four operations — modular exponentiation, the
//! prover's response, the verifier's check of the two congruences, and
//! uniform sampling below a bound — are all stateless given the instance's
//! parameters.

use vstd::prelude::*;
use vstd::calc;
use vstd::arithmetic::power::pow;
use vstd::arithmetic::power::lemma_pow0;
use vstd::arithmetic::power::lemma_pow1;
use vstd::arithmetic::power::lemma_pow_multiplies;
use vstd::arithmetic::power::lemma_pow_adds;
use vstd::arithmetic::power::lemma_pow_mod_noop;
use vstd::arithmetic::div_mod::lemma_fundamental_div_mod;
use vstd::arithmetic::div_mod::lemma_fundamental_div_mod_converse_mod;
use vstd::arithmetic::div_mod::lemma_mod_bound;
use vstd::arithmetic::div_mod::lemma_small_mod;
use vstd::arithmetic::div_mod::lemma_add_mod_noop;
use vstd::arithmetic::div_mod::lemma_mul_mod_noop_right;
use vstd::arithmetic::div_mod::lemma_mod_equivalence;
use crate::arith::nat_of_be_bytes;
use crate::arith::pow_mod;
use crate::arith::lemma_be_bytes_at_least_first;
use crate::arith::lemma_pow_mod_congruent;
use crate::arith::lemma_pow_mod_exp_reduce;
use crate::bignum::Natural;
use crate::bignum::big_modpow;
use crate::bignum::big_mul;
use crate::bignum::big_sub;
use crate::bignum::big_ge;
use crate::bignum::big_eq;
use crate::bignum::big_random_below;
use crate::bignum::fresh_rng;

verus! {

/// The group description a proof session works in: prime modulus `p`, prime
/// subgroup order `q` (dividing `p - 1`), and the two generators `alpha` and
/// `beta` of the order-`q` subgroup.
pub struct ZKP {
    pub p: Natural,
    pub q: Natural,
    pub alpha: Natural,
    pub beta: Natural,
}

/// The prover's response over the integers: `(k - c * x) mod q`, the true
/// modular difference, always in `[0, q)` when `q > 0`.
pub open spec fn response(k: nat, c: nat, x: nat, q: nat) -> int {
    (k - c * x) % (q as int)
}

/// The two congruences the verifier checks:
/// `r1 = alpha^s * y1^c mod p` and `r2 = beta^s * y2^c mod p`.
pub open spec fn proof_checks(
    p: nat,
    alpha: nat,
    beta: nat,
    r1: nat,
    r2: nat,
    y1: nat,
    y2: nat,
    c: nat,
    s: nat,
) -> bool {
    &&& r1 == (pow(alpha as int, s) * pow(y1 as int, c)) % (p as int)
    &&& r2 == (pow(beta as int, s) * pow(y2 as int, c)) % (p as int)
}

/// Big-endian bytes of the 1024-bit prime modulus of the standard group.
pub open spec fn standard_p_bytes() -> Seq<u8> {
    seq![
        0xB1u8, 0x0Bu8, 0x8Fu8, 0x96u8, 0xA0u8, 0x80u8, 0xE0u8, 0x1Du8, 0xDEu8, 0x92u8,
        0xDEu8, 0x5Eu8, 0xAEu8, 0x5Du8, 0x54u8, 0xECu8, 0x52u8, 0xC9u8, 0x9Fu8, 0xBCu8,
        0xFBu8, 0x06u8, 0xA3u8, 0xC6u8, 0x9Au8, 0x6Au8, 0x9Du8, 0xCAu8, 0x52u8, 0xD2u8,
        0x3Bu8, 0x61u8, 0x60u8, 0x73u8, 0xE2u8, 0x86u8, 0x75u8, 0xA2u8, 0x3Du8, 0x18u8,
        0x98u8, 0x38u8, 0xEFu8, 0x1Eu8, 0x2Eu8, 0xE6u8, 0x52u8, 0xC0u8, 0x13u8, 0xECu8,
        0xB4u8, 0xAEu8, 0xA9u8, 0x06u8, 0x11u8, 0x23u8, 0x24u8, 0x97u8, 0x5Cu8, 0x3Cu8,
        0xD4u8, 0x9Bu8, 0x83u8, 0xBFu8, 0xACu8, 0xCBu8, 0xDDu8, 0x7Du8, 0x90u8, 0xC4u8,
        0xBDu8, 0x70u8, 0x98u8, 0x48u8, 0x8Eu8, 0x9Cu8, 0x21u8, 0x9Au8, 0x73u8, 0x72u8,
        0x4Eu8, 0xFFu8, 0xD6u8, 0xFAu8, 0xE5u8, 0x64u8, 0x47u8, 0x38u8, 0xFAu8, 0xA3u8,
        0x1Au8, 0x4Fu8, 0xF5u8, 0x5Bu8, 0xCCu8, 0xC0u8, 0xA1u8, 0x51u8, 0xAFu8, 0x5Fu8,
        0x0Du8, 0xC8u8, 0xB4u8, 0xBDu8, 0x45u8, 0xBFu8, 0x37u8, 0xDFu8, 0x36u8, 0x5Cu8,
        0x1Au8, 0x65u8, 0xE6u8, 0x8Cu8, 0xFDu8, 0xA7u8, 0x6Du8, 0x4Du8, 0xA7u8, 0x08u8,
        0xDFu8, 0x1Fu8, 0xB2u8, 0xBCu8, 0x2Eu8, 0x4Au8, 0x43u8, 0x71u8,
    ]
}

/// Big-endian bytes of the 160-bit prime order of the standard subgroup.
pub open spec fn standard_q_bytes() -> Seq<u8> {
    seq![
        0xF5u8, 0x18u8, 0xAAu8, 0x87u8, 0x81u8, 0xA8u8, 0xDFu8, 0x27u8, 0x8Au8, 0xBAu8,
        0x4Eu8, 0x7Du8, 0x64u8, 0xB7u8, 0xCBu8, 0x9Du8, 0x49u8, 0x46u8, 0x23u8, 0x53u8,
    ]
}

/// Big-endian bytes of the generator of the standard subgroup.
pub open spec fn standard_alpha_bytes() -> Seq<u8> {
    seq![
        0xA4u8, 0xD1u8, 0xCBu8, 0xD5u8, 0xC3u8, 0xFDu8, 0x34u8, 0x12u8, 0x67u8, 0x65u8,
        0xA4u8, 0x42u8, 0xEFu8, 0xB9u8, 0x99u8, 0x05u8, 0xF8u8, 0x10u8, 0x4Du8, 0xD2u8,
        0x58u8, 0xACu8, 0x50u8, 0x7Fu8, 0xD6u8, 0x40u8, 0x6Cu8, 0xFFu8, 0x14u8, 0x26u8,
        0x6Du8, 0x31u8, 0x26u8, 0x6Fu8, 0xEAu8, 0x1Eu8, 0x5Cu8, 0x41u8, 0x56u8, 0x4Bu8,
        0x77u8, 0x7Eu8, 0x69u8, 0x0Fu8, 0x55u8, 0x04u8, 0xF2u8, 0x13u8, 0x16u8, 0x02u8,
        0x17u8, 0xB4u8, 0xB0u8, 0x1Bu8, 0x88u8, 0x6Au8, 0x5Eu8, 0x91u8, 0x54u8, 0x7Fu8,
        0x9Eu8, 0x27u8, 0x49u8, 0xF4u8, 0xD7u8, 0xFBu8, 0xD7u8, 0xD3u8, 0xB9u8, 0xA9u8,
        0x2Eu8, 0xE1u8, 0x90u8, 0x9Du8, 0x0Du8, 0x22u8, 0x63u8, 0xF8u8, 0x0Au8, 0x76u8,
        0xA6u8, 0xA2u8, 0x4Cu8, 0x08u8, 0x7Au8, 0x09u8, 0x1Fu8, 0x53u8, 0x1Du8, 0xBFu8,
        0x0Au8, 0x01u8, 0x69u8, 0xB6u8, 0xA2u8, 0x8Au8, 0xD6u8, 0x62u8, 0xA4u8, 0xD1u8,
        0x8Eu8, 0x73u8, 0xAFu8, 0xA3u8, 0x2Du8, 0x77u8, 0x9Du8, 0x59u8, 0x18u8, 0xD0u8,
        0x8Bu8, 0xC8u8, 0x85u8, 0x8Fu8, 0x4Du8, 0xCEu8, 0xF9u8, 0x7Cu8, 0x2Au8, 0x24u8,
        0x85u8, 0x5Eu8, 0x6Eu8, 0xEBu8, 0x22u8, 0xB3u8, 0xB2u8, 0xE5u8,
    ]
}

impl ZKP {
    /// `n^exponent mod modulus`, by modular exponentiation.
    pub fn exponentiate(n: &Natural, exponent: &Natural, modulus: &Natural) -> (r: Natural)
        requires
            modulus.value() > 1,
        ensures
            r.value() == pow_mod(n.value(), exponent.value(), modulus.value()),
            r.value() < modulus.value(),
            exponent.value() == 0 ==> r.value() == 1,
            exponent.value() == 1 ==> r.value() == n.value() % modulus.value(),
    {
        let r = big_modpow(n, exponent, modulus);
        proof {
            let b = n.value() as int;
            let m = modulus.value() as int;
            lemma_mod_bound(pow(b, exponent.value()), m);
            if exponent.value() == 0 {
                lemma_pow0(b);
                lemma_small_mod(1, modulus.value());
            }
            if exponent.value() == 1 {
                lemma_pow1(b);
            }
        }
        r
    }

    /// The prover's response `s = (k - c * x) mod q`, reduced into `[0, q)` by
    /// true modular subtraction even when `c * x` exceeds `k`.
    pub fn solve(&self, k: &Natural, c: &Natural, x: &Natural) -> (s: Natural)
        requires
            self.q.value() > 1,
        ensures
            s.value() < self.q.value(),
            s.value() == response(k.value(), c.value(), x.value(), self.q.value()),
    {
        let cx = big_mul(c, x);
        let one = Natural::from_u64(1);
        if big_ge(k, &cx) {
            let d = big_sub(k, &cx);
            let s = big_modpow(&d, &one, &self.q);
            proof {
                lemma_pow1(d.value() as int);
                lemma_mod_bound(d.value() as int, self.q.value() as int);
            }
            s
        } else {
            let d = big_sub(&cx, k);
            let r = big_modpow(&d, &one, &self.q);
            proof {
                lemma_pow1(d.value() as int);
                lemma_mod_bound(d.value() as int, self.q.value() as int);
            }
            if big_eq(&r, &Natural::from_u64(0)) {
                proof {
                    let qi = self.q.value() as int;
                    let di = d.value() as int;
                    lemma_fundamental_div_mod(di, qi);
                    assert(-di == (-(di / qi)) * qi + 0) by (nonlinear_arith)
                        requires
                            di == qi * (di / qi) + di % qi,
                            di % qi == 0,
                    ;
                    lemma_fundamental_div_mod_converse_mod(-di, qi, -(di / qi), 0);
                }
                Natural::from_u64(0)
            } else {
                let s = big_sub(&self.q, &r);
                proof {
                    let qi = self.q.value() as int;
                    let di = d.value() as int;
                    let ri = r.value() as int;
                    lemma_fundamental_div_mod(di, qi);
                    assert(-di == (-(di / qi) - 1) * qi + (qi - ri)) by (nonlinear_arith)
                        requires
                            di == qi * (di / qi) + di % qi,
                            di % qi == ri,
                    ;
                    lemma_fundamental_div_mod_converse_mod(-di, qi, -(di / qi) - 1, qi - ri);
                }
                s
            }
        }
    }

    /// The verifier's check: true exactly when both congruences
    /// `r1 = alpha^s * y1^c mod p` and `r2 = beta^s * y2^c mod p` hold.
    pub fn verify(
        &self,
        r1: &Natural,
        r2: &Natural,
        y1: &Natural,
        y2: &Natural,
        c: &Natural,
        s: &Natural,
    ) -> (ok: bool)
        requires
            self.p.value() > 1,
        ensures
            ok == proof_checks(
                self.p.value(),
                self.alpha.value(),
                self.beta.value(),
                r1.value(),
                r2.value(),
                y1.value(),
                y2.value(),
                c.value(),
                s.value(),
            ),
    {
        let one = Natural::from_u64(1);
        let u1 = big_modpow(&self.alpha, s, &self.p);
        let v1 = big_modpow(y1, c, &self.p);
        let w1 = big_modpow(&big_mul(&u1, &v1), &one, &self.p);
        let cond1 = big_eq(r1, &w1);
        let u2 = big_modpow(&self.beta, s, &self.p);
        let v2 = big_modpow(y2, c, &self.p);
        let w2 = big_modpow(&big_mul(&u2, &v2), &one, &self.p);
        let cond2 = big_eq(r2, &w2);
        proof {
            Self::lemma_product_mod(self.alpha.value(), y1.value(), c.value(), s.value(), self.p.value());
            Self::lemma_product_mod(self.beta.value(), y2.value(), c.value(), s.value(), self.p.value());
            lemma_pow1((u1.value() * v1.value()) as int);
            lemma_pow1((u2.value() * v2.value()) as int);
        }
        cond1 && cond2
    }

    /// Multiplying the two reduced powers and reducing once more yields the
    /// product of the powers modulo `p`.
    proof fn lemma_product_mod(g: nat, y: nat, c: nat, s: nat, p: nat)
        requires
            p > 0,
        ensures
            ((pow_mod(g, s, p) * pow_mod(y, c, p)) as int) % (p as int)
                == (pow(g as int, s) * pow(y as int, c)) % (p as int),
    {
        let pi = p as int;
        lemma_mod_bound(pow(g as int, s), pi);
        lemma_mod_bound(pow(y as int, c), pi);
        vstd::arithmetic::div_mod::lemma_mul_mod_noop(pow(g as int, s), pow(y as int, c), pi);
    }

    /// A uniform random value in `[0, bound)`, from the thread-local
    /// cryptographically secure generator. Sampled fresh on every call: a
    /// nonce must never be reused across proofs with the same secret.
    pub fn generate_random_below(bound: &Natural) -> (r: Natural)
        requires
            bound.value() > 0,
        ensures
            r.value() < bound.value(),
    {
        let mut rng = fresh_rng();
        big_random_below(&mut rng, bound)
    }

    /// The standard 1024-bit group: the fixed prime `p`, subgroup order `q`
    /// and generator `alpha`, together with a second generator
    /// `beta = alpha^i mod p` for a freshly sampled secret exponent `i`.
    /// Returned in the order `(alpha, beta, p, q)`.
    pub fn get_constants() -> (t: (Natural, Natural, Natural, Natural))
        ensures
            t.0.value() == nat_of_be_bytes(standard_alpha_bytes()),
            t.2.value() == nat_of_be_bytes(standard_p_bytes()),
            t.3.value() == nat_of_be_bytes(standard_q_bytes()),
            t.2.value() > 1,
            t.3.value() > 1,
            t.1.value() < t.2.value(),
            exists|i: nat|
                i < t.3.value() && t.1.value() == #[trigger] pow_mod(
                    t.0.value(),
                    i,
                    t.2.value(),
                ),
    {
        let p_bytes: Vec<u8> = vec![
        0xB1u8, 0x0Bu8, 0x8Fu8, 0x96u8, 0xA0u8, 0x80u8, 0xE0u8, 0x1Du8, 0xDEu8, 0x92u8,
        0xDEu8, 0x5Eu8, 0xAEu8, 0x5Du8, 0x54u8, 0xECu8, 0x52u8, 0xC9u8, 0x9Fu8, 0xBCu8,
        0xFBu8, 0x06u8, 0xA3u8, 0xC6u8, 0x9Au8, 0x6Au8, 0x9Du8, 0xCAu8, 0x52u8, 0xD2u8,
        0x3Bu8, 0x61u8, 0x60u8, 0x73u8, 0xE2u8, 0x86u8, 0x75u8, 0xA2u8, 0x3Du8, 0x18u8,
        0x98u8, 0x38u8, 0xEFu8, 0x1Eu8, 0x2Eu8, 0xE6u8, 0x52u8, 0xC0u8, 0x13u8, 0xECu8,
        0xB4u8, 0xAEu8, 0xA9u8, 0x06u8, 0x11u8, 0x23u8, 0x24u8, 0x97u8, 0x5Cu8, 0x3Cu8,
        0xD4u8, 0x9Bu8, 0x83u8, 0xBFu8, 0xACu8, 0xCBu8, 0xDDu8, 0x7Du8, 0x90u8, 0xC4u8,
        0xBDu8, 0x70u8, 0x98u8, 0x48u8, 0x8Eu8, 0x9Cu8, 0x21u8, 0x9Au8, 0x73u8, 0x72u8,
        0x4Eu8, 0xFFu8, 0xD6u8, 0xFAu8, 0xE5u8, 0x64u8, 0x47u8, 0x38u8, 0xFAu8, 0xA3u8,
        0x1Au8, 0x4Fu8, 0xF5u8, 0x5Bu8, 0xCCu8, 0xC0u8, 0xA1u8, 0x51u8, 0xAFu8, 0x5Fu8,
        0x0Du8, 0xC8u8, 0xB4u8, 0xBDu8, 0x45u8, 0xBFu8, 0x37u8, 0xDFu8, 0x36u8, 0x5Cu8,
        0x1Au8, 0x65u8, 0xE6u8, 0x8Cu8, 0xFDu8, 0xA7u8, 0x6Du8, 0x4Du8, 0xA7u8, 0x08u8,
        0xDFu8, 0x1Fu8, 0xB2u8, 0xBCu8, 0x2Eu8, 0x4Au8, 0x43u8, 0x71u8,
        ];
        let q_bytes: Vec<u8> = vec![
        0xF5u8, 0x18u8, 0xAAu8, 0x87u8, 0x81u8, 0xA8u8, 0xDFu8, 0x27u8, 0x8Au8, 0xBAu8,
        0x4Eu8, 0x7Du8, 0x64u8, 0xB7u8, 0xCBu8, 0x9Du8, 0x49u8, 0x46u8, 0x23u8, 0x53u8,
        ];
        let alpha_bytes: Vec<u8> = vec![
        0xA4u8, 0xD1u8, 0xCBu8, 0xD5u8, 0xC3u8, 0xFDu8, 0x34u8, 0x12u8, 0x67u8, 0x65u8,
        0xA4u8, 0x42u8, 0xEFu8, 0xB9u8, 0x99u8, 0x05u8, 0xF8u8, 0x10u8, 0x4Du8, 0xD2u8,
        0x58u8, 0xACu8, 0x50u8, 0x7Fu8, 0xD6u8, 0x40u8, 0x6Cu8, 0xFFu8, 0x14u8, 0x26u8,
        0x6Du8, 0x31u8, 0x26u8, 0x6Fu8, 0xEAu8, 0x1Eu8, 0x5Cu8, 0x41u8, 0x56u8, 0x4Bu8,
        0x77u8, 0x7Eu8, 0x69u8, 0x0Fu8, 0x55u8, 0x04u8, 0xF2u8, 0x13u8, 0x16u8, 0x02u8,
        0x17u8, 0xB4u8, 0xB0u8, 0x1Bu8, 0x88u8, 0x6Au8, 0x5Eu8, 0x91u8, 0x54u8, 0x7Fu8,
        0x9Eu8, 0x27u8, 0x49u8, 0xF4u8, 0xD7u8, 0xFBu8, 0xD7u8, 0xD3u8, 0xB9u8, 0xA9u8,
        0x2Eu8, 0xE1u8, 0x90u8, 0x9Du8, 0x0Du8, 0x22u8, 0x63u8, 0xF8u8, 0x0Au8, 0x76u8,
        0xA6u8, 0xA2u8, 0x4Cu8, 0x08u8, 0x7Au8, 0x09u8, 0x1Fu8, 0x53u8, 0x1Du8, 0xBFu8,
        0x0Au8, 0x01u8, 0x69u8, 0xB6u8, 0xA2u8, 0x8Au8, 0xD6u8, 0x62u8, 0xA4u8, 0xD1u8,
        0x8Eu8, 0x73u8, 0xAFu8, 0xA3u8, 0x2Du8, 0x77u8, 0x9Du8, 0x59u8, 0x18u8, 0xD0u8,
        0x8Bu8, 0xC8u8, 0x85u8, 0x8Fu8, 0x4Du8, 0xCEu8, 0xF9u8, 0x7Cu8, 0x2Au8, 0x24u8,
        0x85u8, 0x5Eu8, 0x6Eu8, 0xEBu8, 0x22u8, 0xB3u8, 0xB2u8, 0xE5u8,
        ];
        proof {
            assert(p_bytes@ =~= standard_p_bytes());
            assert(q_bytes@ =~= standard_q_bytes());
            assert(alpha_bytes@ =~= standard_alpha_bytes());
        }
        let p = Natural::from_bytes_be(&p_bytes);
        let q = Natural::from_bytes_be(&q_bytes);
        let alpha = Natural::from_bytes_be(&alpha_bytes);
        proof {
            lemma_be_bytes_at_least_first(standard_p_bytes());
            lemma_be_bytes_at_least_first(standard_q_bytes());
        }
        let i = Self::generate_random_below(&q);
        let beta = big_modpow(&alpha, &i, &p);
        proof {
            lemma_mod_bound(pow(alpha.value() as int, i.value()), p.value() as int);
            assert(i.value() < q.value()
                && beta.value() == pow_mod(alpha.value(), i.value(), p.value()));
        }
        (alpha, beta, p, q)
    }
}

/// One congruence of an honest transcript: with `y = g^x mod p` and
/// `r = g^k mod p`, the response `s = (k - c * x) mod q` satisfies
/// `r = g^s * y^c mod p`, provided `g^q ≡ 1 (mod p)`.
proof fn lemma_honest_congruence(p: nat, q: nat, g: nat, x: nat, k: nat, c: nat)
    requires
        p > 1,
        q > 1,
        pow_mod(g, q, p) == 1,
    ensures
        pow_mod(g, k, p)
            == (pow(g as int, response(k, c, x, q) as nat) * pow(pow_mod(g, x, p) as int, c))
                % (p as int),
{
    let gi = g as int;
    let pi = p as int;
    let qi = q as int;
    lemma_mod_bound((k - c * x) as int, qi);
    let s = response(k, c, x, q) as nat;
    let y = pow_mod(g, x, p);
    lemma_mod_bound(pow(gi, x), pi);
    assert(y as int == pow(gi, x) % pi);
    calc! {
        (==)
        (pow(gi, s) * pow(y as int, c)) % pi; {
            lemma_pow_mod_noop(pow(gi, x), c, pi);
            lemma_pow_multiplies(gi, x, c);
            lemma_mul_mod_noop_right(pow(gi, s), pow(y as int, c), pi);
            lemma_mul_mod_noop_right(pow(gi, s), pow(gi, (x * c) as nat), pi);
            assert(pow(y as int, c) % pi == pow(gi, (x * c) as nat) % pi);
        }
        (pow(gi, s) * pow(gi, (x * c) as nat)) % pi; {
            lemma_pow_adds(gi, s, (x * c) as nat);
        }
        pow(gi, (s + x * c) as nat) % pi;
    }
    assert((s + x * c) % q == k % q) by {
        lemma_add_mod_noop((k - c * x) % qi, (c * x) as int, qi);
        vstd::arithmetic::div_mod::lemma_mod_twice((k - c * x) as int, qi);
        assert(((s + c * x) as int) % qi == ((k - c * x) % qi + ((c * x) as int) % qi) % qi);
        lemma_add_mod_noop((k - c * x) as int, (c * x) as int, qi);
        assert((((k - c * x) % qi) + ((c * x) as int) % qi) % qi == ((k - c * x) + (c * x)) % qi);
        assert((k - c * x) + (c * x) == k as int);
        assert(x * c == c * x);
    }
    lemma_pow_mod_congruent(g, (s + x * c) as nat, k, p, q);
}

/// Completeness of verification: for a genuine secret `x`, any nonce `k` and
/// any challenge `c`, the honestly computed transcript — commitments
/// `y1 = alpha^x mod p`, `y2 = beta^x mod p`, announcements
/// `r1 = alpha^k mod p`, `r2 = beta^k mod p`, and response
/// `s = (k - c * x) mod q` — passes both of the verifier's congruences. The
/// group hypotheses say that `alpha` and `beta` have order dividing `q`
/// modulo `p`.
pub proof fn lemma_verification_complete(p: nat, q: nat, alpha: nat, beta: nat, x: nat, k: nat, c: nat)
    requires
        p > 1,
        q > 1,
        pow_mod(alpha, q, p) == 1,
        pow_mod(beta, q, p) == 1,
    ensures
        proof_checks(
            p,
            alpha,
            beta,
            pow_mod(alpha, k, p),
            pow_mod(beta, k, p),
            pow_mod(alpha, x, p),
            pow_mod(beta, x, p),
            c,
            response(k, c, x, q) as nat,
        ),
{
    lemma_honest_congruence(p, q, alpha, x, k, c);
    lemma_honest_congruence(p, q, beta, x, k, c);
}

/// Soundness of verification: keep the honest commitments and announcements,
/// but compute the response from a different secret `x_fake`. If the
/// challenge separates the two secrets modulo the group order — that is,
/// `c * x` and `c * x_fake` differ mod `q`, which for a uniformly random `c`
/// fails with probability at most `1/q` — the first congruence is violated
/// and verification rejects. The quantified hypothesis says that `alpha`
/// generates a subgroup of order exactly `q`: distinct exponents below `q`
/// give distinct powers.
pub proof fn lemma_verification_sound(
    p: nat,
    q: nat,
    alpha: nat,
    beta: nat,
    x: nat,
    x_fake: nat,
    k: nat,
    c: nat,
)
    requires
        p > 1,
        q > 1,
        pow_mod(alpha, q, p) == 1,
        forall|a: nat, b: nat|
            #![trigger pow_mod(alpha, a, p), pow_mod(alpha, b, p)]
            a < q && b < q && pow_mod(alpha, a, p) == pow_mod(alpha, b, p) ==> a == b,
        (c * x) % q != (c * x_fake) % q,
    ensures
        !proof_checks(
            p,
            alpha,
            beta,
            pow_mod(alpha, k, p),
            pow_mod(beta, k, p),
            pow_mod(alpha, x, p),
            pow_mod(beta, x, p),
            c,
            response(k, c, x_fake, q) as nat,
        ),
{
    let gi = alpha as int;
    let pi = p as int;
    let qi = q as int;
    lemma_mod_bound((k - c * x_fake) as int, qi);
    let s = response(k, c, x_fake, q) as nat;
    let y1 = pow_mod(alpha, x, p);
    let r1 = pow_mod(alpha, k, p);
    if r1 == (pow(gi, s) * pow(y1 as int, c)) % pi {
        // Reduce both sides to powers of `alpha` with exponents below `q`.
        lemma_mod_bound(pow(gi, x), pi);
        calc! {
            (==)
            (pow(gi, s) * pow(y1 as int, c)) % pi; {
                lemma_pow_mod_noop(pow(gi, x), c, pi);
                lemma_pow_multiplies(gi, x, c);
                lemma_mul_mod_noop_right(pow(gi, s), pow(y1 as int, c), pi);
                lemma_mul_mod_noop_right(pow(gi, s), pow(gi, (x * c) as nat), pi);
            }
            (pow(gi, s) * pow(gi, (x * c) as nat)) % pi; {
                lemma_pow_adds(gi, s, (x * c) as nat);
            }
            pow(gi, (s + x * c) as nat) % pi;
        }
        lemma_pow_mod_exp_reduce(alpha, (s + x * c) as nat, p, q);
        lemma_pow_mod_exp_reduce(alpha, k, p, q);
        lemma_mod_bound((s + x * c) as int, qi);
        lemma_mod_bound(k as int, qi);
        assert(pow_mod(alpha, ((s + x * c) % q), p) == pow_mod(alpha, k % q, p));
        assert((s + x * c) % q == k % q);
        // The honest response for `x_fake` also satisfies the congruence with
        // exponent `k` modulo `q`, so the two products of `c` must agree.
        assert(((s + c * x_fake) as int) % qi == k as int % qi) by {
            lemma_add_mod_noop((k - c * x_fake) % qi, (c * x_fake) as int, qi);
            vstd::arithmetic::div_mod::lemma_mod_twice((k - c * x_fake) as int, qi);
            lemma_add_mod_noop((k - c * x_fake) as int, (c * x_fake) as int, qi);
            assert((k - c * x_fake) + (c * x_fake) == k as int);
        }
        assert(x * c == c * x);
        lemma_mod_equivalence((s + c * x) as int, (s + c * x_fake) as int, qi);
        lemma_mod_equivalence((c * x) as int, (c * x_fake) as int, qi);
        assert(false);
    }
}

} // verus!
