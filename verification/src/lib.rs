//! Chaum-Pedersen zero-knowledge password authentication.
//!
//! A prover shows knowledge of a secret exponent without revealing it:
//! the verifier stores the prover's commitments, issues a random challenge,
//! and checks the prover's response with pure modular arithmetic over a
//! discrete-log group.
//!
//! `zkp_cp` holds the protocol engine and the fixed group, `bignum` the
//! arbitrary-precision arithmetic and the big-endian wire encoding,
//! `prover` the client-side rounds, and `server` the verifier's store and
//! its registration / challenge / verification lifecycle.

pub mod bignum;
pub mod prover;
pub mod server;
mod strmap;
pub mod zkp_cp;
