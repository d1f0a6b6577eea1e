//! The prover's side of the protocol: the commitments sent at registration
//! and per authentication attempt, and the response to a challenge. The
//! network round trips around these calls belong to the surrounding
//! application layer.

use vstd::prelude::*;

use num_bigint::BigUint;

use crate::bignum::{pow_mod, value_of};
use crate::zkp_cp::{solve_spec, ZKP};

verus! {

/// Client-side orchestration of the two protocol rounds over a group.
pub struct ProverSession {
    pub zkp: ZKP,
}

impl ProverSession {
    pub fn new(zkp: ZKP) -> (r: Self)
        ensures
            r.zkp == zkp,
    {
        ProverSession { zkp }
    }

    /// The pair `(alpha^exponent, beta^exponent) mod p`: the registration
    /// commitments when the exponent is the secret, and the attempt
    /// commitments when it is the fresh nonce `k`.
    pub fn commitments(&self, exponent: &BigUint) -> (r: (BigUint, BigUint))
        requires
            value_of(self.zkp.p) > 0,
        ensures
            value_of(r.0) == pow_mod(
                value_of(self.zkp.alpha),
                value_of(*exponent),
                value_of(self.zkp.p),
            ),
            value_of(r.1) == pow_mod(
                value_of(self.zkp.beta),
                value_of(*exponent),
                value_of(self.zkp.p),
            ),
    {
        let first = ZKP::pow(&self.zkp.alpha, exponent, &self.zkp.p);
        let second = ZKP::pow(&self.zkp.beta, exponent, &self.zkp.p);
        (first, second)
    }

    /// The response to challenge `c`, for nonce `k` and the guessed
    /// secret: `(k - c * secret) mod q`.
    pub fn challenge_response(&self, k: &BigUint, c: &BigUint, secret: &BigUint) -> (s: BigUint)
        requires
            value_of(self.zkp.q) > 0,
        ensures
            value_of(s) == solve_spec(
                value_of(*k),
                value_of(*c),
                value_of(*secret),
                value_of(self.zkp.q),
            ),
            value_of(s) < value_of(self.zkp.q),
    {
        self.zkp.solve(k, c, secret)
    }
}

} // verus!
