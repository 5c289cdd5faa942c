//! Chaum-Pedersen-style zero-knowledge proof of knowledge of a discrete
//! logarithm shared between two generators of a prime-order subgroup.
//!
//! The prover convinces a verifier that it knows a secret exponent `x` with
//! `y1 = alpha^x mod p` and `y2 = beta^x mod p` without revealing `x`.

mod arith;
mod bignum;
mod zkp;

pub use bignum::Natural;
pub use zkp::ZKP;
pub use zkp::proof_checks;
pub use zkp::response;
pub use zkp::standard_p_bytes;
pub use zkp::standard_q_bytes;
pub use zkp::standard_alpha_bytes;
pub use zkp::lemma_verification_complete;
pub use zkp::lemma_verification_sound;
pub use arith::nat_of_limbs;
pub use arith::nat_of_be_bytes;
pub use arith::pow_mod;
pub use arith::lemma_pow_mod_exp_reduce;
pub use arith::lemma_pow_mod_congruent;
