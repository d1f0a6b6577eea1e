//! The Chaum-Pedersen protocol engine: the group description and the pure
//! protocol arithmetic (modular exponentiation, response, verification),
//! together with the random values the verifier draws.

use vstd::arithmetic::div_mod::{
    lemma_fundamental_div_mod, lemma_fundamental_div_mod_converse_mod,
    lemma_mod_division_less_than_divisor, lemma_mod_multiples_vanish, lemma_mul_mod_noop_general,
    lemma_mul_mod_noop_left, lemma_small_mod, lemma_sub_mod_noop,
};
use vstd::arithmetic::power::{
    lemma1_pow, lemma_pow_adds, lemma_pow_mod_noop, lemma_pow_multiplies, pow,
};
use vstd::prelude::*;

use num_bigint::{BigUint, RandBigInt};
use rand::Rng;

use crate::bignum::{
    be_bytes_value, big_eq, big_from_bytes_be, big_from_u32, big_ge, big_modpow, big_mul, big_rem,
    big_sub, pow_mod, value_of,
};

verus! {

/// The group modulus, in big-endian bytes.
pub const P_BYTES: [u8; 128] = [
    0xc2, 0xb6, 0x49, 0x82, 0x74, 0x0a, 0x69, 0x2e, 0x5b, 0x20, 0x9e, 0xdd,
    0xd1, 0x01, 0xa7, 0x84, 0xcf, 0x4b, 0x6b, 0x3d, 0x8a, 0x54, 0x7c, 0x32,
    0x4f, 0xaa, 0x51, 0xea, 0x21, 0x54, 0x16, 0xa0, 0xd6, 0xe6, 0x62, 0xd9,
    0xd4, 0xee, 0x2e, 0xf9, 0x91, 0x37, 0x2b, 0x9c, 0x1b, 0xfb, 0x88, 0x45,
    0xd2, 0x19, 0xd1, 0x22, 0xa9, 0x4e, 0xc2, 0xc2, 0xdd, 0x80, 0x75, 0xa5,
    0xe4, 0x44, 0x85, 0x24, 0x81, 0x50, 0xb0, 0x13, 0x37, 0xac, 0x61, 0x46,
    0x9d, 0xcc, 0x96, 0x5d, 0x77, 0xc5, 0x5d, 0xa5, 0xfd, 0x75, 0xdf, 0x6b,
    0x5f, 0x46, 0xa2, 0x8e, 0xd4, 0x41, 0x2f, 0xf0, 0xe1, 0xd8, 0x03, 0x5c,
    0xbc, 0xef, 0x5c, 0x3d, 0x54, 0xa2, 0x0b, 0xe6, 0x51, 0xf7, 0x1d, 0x89,
    0x23, 0xd0, 0x81, 0xa6, 0xc1, 0xf6, 0xb6, 0xc8, 0xac, 0x46, 0xfa, 0x11,
    0x7d, 0x04, 0x7a, 0x56, 0x6c, 0x00, 0x1f, 0x6f,
];

/// The order of the subgroup the generators span, in big-endian bytes.
pub const Q_BYTES: [u8; 20] = [
    0xe6, 0x0c, 0x2c, 0x50, 0xdc, 0xbb, 0xa9, 0x47, 0xa9, 0xde, 0x80, 0x08,
    0x55, 0x07, 0xc3, 0xbb, 0x92, 0xa5, 0x66, 0x01,
];

/// The first generator, in big-endian bytes.
pub const ALPHA_BYTES: [u8; 128] = [
    0x57, 0x22, 0x19, 0x56, 0x1d, 0xae, 0x89, 0x12, 0x95, 0x45, 0x81, 0xda,
    0x5a, 0xb3, 0x93, 0x5d, 0xe1, 0x4d, 0x04, 0x05, 0xfa, 0x25, 0xfb, 0x85,
    0x54, 0x46, 0xb1, 0x79, 0xe8, 0x6c, 0x5b, 0xdb, 0x29, 0x6b, 0xd8, 0xf2,
    0xf6, 0xd8, 0xaf, 0x82, 0x66, 0xf5, 0x6e, 0xb9, 0x92, 0x6e, 0x72, 0x29,
    0x7a, 0x57, 0x82, 0x7d, 0x32, 0x19, 0xef, 0xe6, 0xbc, 0xbe, 0x71, 0x71,
    0xef, 0xdb, 0xbb, 0x15, 0x76, 0x0f, 0xaf, 0x36, 0x04, 0x75, 0xca, 0xda,
    0xd6, 0x71, 0xc7, 0x69, 0x77, 0x5c, 0xc6, 0xf7, 0x5d, 0xa5, 0x57, 0x17,
    0xdf, 0x04, 0x66, 0x00, 0x47, 0x01, 0x62, 0xec, 0x01, 0x4a, 0x27, 0x6c,
    0xc2, 0x3a, 0xfc, 0x22, 0xf9, 0xe5, 0xc2, 0xd3, 0x92, 0xb4, 0xd9, 0xe9,
    0x91, 0xdf, 0xcd, 0xd9, 0x20, 0x07, 0x2f, 0x96, 0x02, 0x7f, 0x56, 0x67,
    0xe3, 0xc7, 0xcc, 0x47, 0x93, 0x64, 0x6c, 0x37,
];

/// The second generator, a fixed power of the first, in big-endian bytes.
/// Both sides of the protocol must use these exact parameters.
pub const BETA_BYTES: [u8; 128] = [
    0x06, 0xe0, 0x99, 0xba, 0xde, 0xb0, 0x78, 0x7f, 0x24, 0xcb, 0x35, 0x0e,
    0x05, 0xf8, 0xf6, 0x12, 0xf8, 0x52, 0x72, 0x83, 0x6d, 0xa4, 0x46, 0x58,
    0x54, 0xdd, 0x21, 0x2c, 0xc7, 0x9c, 0xb4, 0x79, 0xa5, 0x25, 0x0b, 0xd6,
    0x80, 0xd1, 0x59, 0x99, 0xd3, 0xee, 0xfc, 0xea, 0x2b, 0x17, 0xdd, 0x3a,
    0x36, 0x6c, 0xd3, 0xbd, 0x36, 0x81, 0xac, 0xdd, 0x01, 0x88, 0xa7, 0xd3,
    0x68, 0x22, 0x56, 0x1c, 0x02, 0x91, 0x4d, 0x28, 0x51, 0xa9, 0x95, 0x17,
    0x72, 0xf4, 0xa4, 0x9d, 0xa2, 0x2e, 0xf5, 0xfd, 0xb2, 0xe4, 0x8b, 0x19,
    0x1e, 0x5c, 0x06, 0x64, 0xa8, 0x84, 0x0a, 0xae, 0x61, 0xc1, 0x5b, 0x5c,
    0xd4, 0x2d, 0x5e, 0x39, 0xb9, 0x85, 0x60, 0x87, 0x98, 0x8e, 0x7e, 0x7e,
    0xd5, 0x81, 0x03, 0x6d, 0xf0, 0xbb, 0x0f, 0xf8, 0x04, 0x71, 0x81, 0x5e,
    0xab, 0x3a, 0xee, 0x46, 0x81, 0x8c, 0x70, 0x4b,
];

/// The value of the fixed group modulus.
pub open spec fn group_p() -> nat {
    be_bytes_value(P_BYTES@)
}

/// The value of the fixed subgroup order.
pub open spec fn group_q() -> nat {
    be_bytes_value(Q_BYTES@)
}

/// The value of the first fixed generator.
pub open spec fn group_alpha() -> nat {
    be_bytes_value(ALPHA_BYTES@)
}

/// The value of the second fixed generator.
pub open spec fn group_beta() -> nat {
    be_bytes_value(BETA_BYTES@)
}

/// The protocol response: `(k - c * x) mod q`, as true modular subtraction,
/// so the result lies in `[0, q)` even when `k < c * x`.
pub open spec fn solve_spec(k: nat, c: nat, x: nat, q: nat) -> nat
    recommends
        q > 0,
{
    ((k - c * x) % (q as int)) as nat
}

/// The verification equations: the response `s` is accepted for challenge `c`
/// exactly when both commitments are consistent with the registered values.
pub open spec fn verify_spec(
    r1: nat,
    r2: nat,
    y1: nat,
    y2: nat,
    c: nat,
    s: nat,
    alpha: nat,
    beta: nat,
    p: nat,
) -> bool
    recommends
        p > 0,
{
    &&& r1 == (pow_mod(alpha, s, p) * pow_mod(y1, c, p)) % p
    &&& r2 == (pow_mod(beta, s, p) * pow_mod(y2, c, p)) % p
}

/// A character of the alphabet random identifiers are drawn from.
pub open spec fn is_alphanumeric_char(ch: char) -> bool {
    ('0' <= ch && ch <= '9') || ('A' <= ch && ch <= 'Z') || ('a' <= ch && ch <= 'z')
}

/// The discrete-log group the protocol works in: modulus `p`, subgroup
/// order `q`, and two generators `alpha` and `beta` of that subgroup.
pub struct ZKP {
    pub p: BigUint,
    pub q: BigUint,
    pub alpha: BigUint,
    pub beta: BigUint,
}

impl ZKP {
    /// `n^exp mod modulus`.
    pub fn pow(n: &BigUint, exp: &BigUint, modulus: &BigUint) -> (r: BigUint)
        requires
            value_of(*modulus) > 0,
        ensures
            value_of(r) == pow_mod(value_of(*n), value_of(*exp), value_of(*modulus)),
    {
        big_modpow(n, exp, modulus)
    }

    /// The prover's response `s = (k - c * x) mod q`, computed without ever
    /// forming a negative intermediate value: when `k < c * x` the remainder
    /// of `c * x - k` is subtracted from `q` instead.
    pub fn solve(&self, k: &BigUint, c: &BigUint, x: &BigUint) -> (s: BigUint)
        requires
            value_of(self.q) > 0,
        ensures
            value_of(s) == solve_spec(value_of(*k), value_of(*c), value_of(*x), value_of(self.q)),
            value_of(s) < value_of(self.q),
    {
        proof {
            lemma_solve_spec_bounds(
                value_of(*k),
                value_of(*c),
                value_of(*x),
                value_of(self.q),
            );
        }
        let cx = big_mul(c, x);
        if big_ge(k, &cx) {
            let d = big_sub(k, &cx);
            big_rem(&d, &self.q)
        } else {
            let d = big_sub(&cx, k);
            let m = big_rem(&d, &self.q);
            let zero = big_from_u32(0);
            if big_eq(&m, &zero) {
                m
            } else {
                big_sub(&self.q, &m)
            }
        }
    }

    /// Checks the two verification equations; true only when both hold.
    pub fn verify(
        &self,
        r1: &BigUint,
        r2: &BigUint,
        y1: &BigUint,
        y2: &BigUint,
        c: &BigUint,
        s: &BigUint,
    ) -> (res: bool)
        requires
            value_of(self.p) > 0,
        ensures
            res == verify_spec(
                value_of(*r1),
                value_of(*r2),
                value_of(*y1),
                value_of(*y2),
                value_of(*c),
                value_of(*s),
                value_of(self.alpha),
                value_of(self.beta),
                value_of(self.p),
            ),
    {
        let alpha_s = Self::pow(&self.alpha, s, &self.p);
        let y1_c = Self::pow(y1, c, &self.p);
        let prod1 = big_mul(&alpha_s, &y1_c);
        let lhs1 = big_rem(&prod1, &self.p);
        let cond1 = big_eq(r1, &lhs1);

        let beta_s = Self::pow(&self.beta, s, &self.p);
        let y2_c = Self::pow(y2, c, &self.p);
        let prod2 = big_mul(&beta_s, &y2_c);
        let lhs2 = big_rem(&prod2, &self.p);
        let cond2 = big_eq(r2, &lhs2);

        cond1 && cond2
    }

    /// Relies on `rand::thread_rng` and `num_bigint::RandBigInt::gen_biguint_below`:
    /// a uniformly random value below `limit`, drawn by rejection sampling
    /// (so without modulo bias); panics when `limit` is zero, which the
    /// precondition rules out. Nothing more is promised of a random draw.
    #[verifier::external_body]
    pub fn gen_rand(limit: &BigUint) -> (r: BigUint)
        requires
            value_of(*limit) > 0,
        ensures
            value_of(r) < value_of(*limit),
    {
        let mut rng = rand::thread_rng();
        rng.gen_biguint_below(limit)
    }

    /// Relies on `rand::thread_rng` and `rand::Rng::sample_iter` with the
    /// `Alphanumeric` distribution: `size` random characters drawn from
    /// `0-9`, `A-Z` and `a-z`. Nothing more is promised of a random draw.
    #[verifier::external_body]
    pub fn gen_rand_str(size: usize) -> (r: String)
        ensures
            r@.len() == size,
            forall|i: int| 0 <= i < r@.len() ==> is_alphanumeric_char(#[trigger] r@[i]),
    {
        rand::thread_rng()
            .sample_iter(rand::distributions::Alphanumeric)
            .take(size)
            .map(char::from)
            .collect()
    }

    /// The fixed group parameters, as `(alpha, beta, p, q)`. Both sides of
    /// the protocol derive them from the same constants.
    pub fn get_const() -> (r: (BigUint, BigUint, BigUint, BigUint))
        ensures
            value_of(r.0) == group_alpha(),
            value_of(r.1) == group_beta(),
            value_of(r.2) == group_p(),
            value_of(r.3) == group_q(),
            group_p() > 1,
            group_q() > 1,
    {
        proof {
            crate::bignum::lemma_be_bytes_value_at_least_first(P_BYTES@);
            crate::bignum::lemma_be_bytes_value_at_least_first(Q_BYTES@);
        }
        let p = big_from_bytes_be(P_BYTES.as_slice());
        let q = big_from_bytes_be(Q_BYTES.as_slice());
        let alpha = big_from_bytes_be(ALPHA_BYTES.as_slice());
        let beta = big_from_bytes_be(BETA_BYTES.as_slice());
        (alpha, beta, p, q)
    }
}

/// The response always lies in `[0, q)`, and the two ways of computing it —
/// Euclidean remainder, and subtraction of the wrapped remainder from `q` —
/// agree; this names every intermediate fact `solve` needs.
proof fn lemma_solve_spec_bounds(k: nat, c: nat, x: nat, q: nat)
    requires
        q > 0,
    ensures
        solve_spec(k, c, x, q) < q,
        k >= c * x ==> solve_spec(k, c, x, q) == ((k - c * x) as nat) % q,
        k < c * x ==> ((c * x - k) as nat % q == 0 ==> solve_spec(k, c, x, q) == 0),
        k < c * x ==> ((c * x - k) as nat % q != 0 ==> solve_spec(k, c, x, q) == (q - (c * x
            - k) as nat % q) as nat),
{
    let cx = c * x;
    let qi = q as int;
    lemma_mod_division_less_than_divisor(k as int - cx as int, qi);
    if k >= cx {
        let d = (k - cx) as nat;
        lemma_mod_division_less_than_divisor(d as int, qi);
    } else {
        let a = (cx - k) as nat;
        let m = a % q;
        let t = a as int / qi;
        lemma_fundamental_div_mod(a as int, qi);
        lemma_mod_division_less_than_divisor(a as int, qi);
        assert(a as int == qi * t + m);
        if m == 0 {
            assert(-(a as int) == (-t) * qi + 0) by (nonlinear_arith)
                requires
                    a as int == qi * t,
            ;
            lemma_fundamental_div_mod_converse_mod(k as int - cx as int, qi, -t, 0);
        } else {
            assert(-(a as int) == (-t - 1) * qi + (qi - m)) by (nonlinear_arith)
                requires
                    a as int == qi * t + m,
            ;
            lemma_fundamental_div_mod_converse_mod(k as int - cx as int, qi, -t - 1, qi - m);
        }
    }
}

/// With a generator of order dividing `q`, an exponent may be reduced
/// modulo `q` without changing the power modulo `p`.
proof fn lemma_pow_reduce_exponent(g: nat, p: nat, q: nat, e: nat)
    requires
        p > 1,
        q > 0,
        pow_mod(g, q, p) == 1,
    ensures
        pow_mod(g, e, p) == pow_mod(g, e % q, p),
{
    let gi = g as int;
    let pi = p as int;
    let qi = q as int;
    let d = e / q;
    let r = e % q;
    lemma_fundamental_div_mod(e as int, qi);
    lemma_mod_division_less_than_divisor(pow(gi, q), pi);
    assert(pow(gi, q) % pi == 1);
    assert(e == q * d + r);
    lemma_pow_adds(gi, (q * d) as nat, r);
    assert(pow(gi, e) == pow(gi, (q * d) as nat) * pow(gi, r));
    lemma_pow_multiplies(gi, q, d);
    assert(pow(gi, (q * d) as nat) == pow(pow(gi, q), d));
    lemma_mul_mod_noop_left(pow(gi, (q * d) as nat), pow(gi, r), pi);
    assert((pow(gi, (q * d) as nat) % pi * pow(gi, r)) % pi == pow(gi, e) % pi);
    lemma_pow_mod_noop(pow(gi, q), d, pi);
    assert(pow(pow(gi, q) % pi, d) % pi == pow(pow(gi, q), d) % pi);
    lemma1_pow(d);
    lemma_small_mod(1, p);
    assert(pow(gi, (q * d) as nat) % pi == 1);
    assert(pow(gi, (q * d) as nat) % pi * pow(gi, r) == 1 * pow(gi, r)) by (nonlinear_arith)
        requires
            pow(gi, (q * d) as nat) % pi == 1,
    ;
    assert(pow(gi, e) % pi == pow(gi, r) % pi);
}

/// The exponent arithmetic behind one verification equation: with `s`
/// computed by `solve`, `s + x * c` is congruent to `k` modulo `q`, so
/// `g^s * (g^x)^c` and `g^k` agree modulo `p`.
proof fn lemma_verify_equation(g: nat, p: nat, q: nat, x: nat, k: nat, c: nat)
    requires
        p > 1,
        q > 0,
        pow_mod(g, q, p) == 1,
    ensures
        pow_mod(g, k, p) == (pow_mod(g, solve_spec(k, c, x, q), p) * pow_mod(
            pow_mod(g, x, p),
            c,
            p,
        )) % p,
{
    let gi = g as int;
    let pi = p as int;
    let qi = q as int;
    let s = solve_spec(k, c, x, q);
    let cx = c * x;

    // The challenged commitment power: ((g^x mod p)^c) mod p == g^(x*c) mod p.
    lemma_mod_division_less_than_divisor(pow(gi, x), pi);
    lemma_pow_mod_noop(pow(gi, x), c, pi);
    lemma_pow_multiplies(gi, x, c);
    assert(pow_mod(pow_mod(g, x, p), c, p) == (pow(gi, (x * c) as nat) % pi) as nat);

    // The product of the two reduced powers is the reduced power of the sum.
    lemma_mod_division_less_than_divisor(pow(gi, s), pi);
    lemma_mul_mod_noop_general(pow(gi, s), pow(gi, (x * c) as nat), pi);
    lemma_pow_adds(gi, s, (x * c) as nat);
    assert((pow_mod(g, s, p) * pow_mod(pow_mod(g, x, p), c, p)) % p == (pow(
        gi,
        (s + x * c) as nat,
    ) % pi) as nat);

    // The response makes the exponents congruent: (s + x*c) % q == k % q.
    let t = (k as int - cx as int) / qi;
    lemma_fundamental_div_mod(k as int - cx as int, qi);
    assert(k as int - cx as int == qi * t + s);
    assert(x * c == c * x) by (nonlinear_arith);
    assert(qi * (-t) == -(qi * t)) by (nonlinear_arith);
    assert((s + x * c) as int == qi * (-t) + k as int);
    lemma_mod_multiples_vanish(-t, k as int, qi);
    assert(((s + x * c) as int) % qi == (k as int) % qi);
    lemma_mod_division_less_than_divisor(k as int, qi);
    lemma_mod_division_less_than_divisor((s + x * c) as int, qi);
    assert((s + x * c) as nat % q == k % q);

    lemma_pow_reduce_exponent(g, p, q, (s + x * c) as nat);
    lemma_pow_reduce_exponent(g, p, q, k);
}

/// Completeness of the protocol: a prover who knows the registered secret
/// `x` always passes. For any secret `x`, nonce `k`, and challenge `c`, the
/// response `solve(k, c, x)` satisfies both verification equations against
/// the registered commitments `g^x` and the attempt commitments `g^k`.
pub proof fn lemma_protocol_completeness(alpha: nat, beta: nat, p: nat, q: nat, x: nat, k: nat, c: nat)
    requires
        p > 1,
        q > 0,
        pow_mod(alpha, q, p) == 1,
        pow_mod(beta, q, p) == 1,
    ensures
        verify_spec(
            pow_mod(alpha, k, p),
            pow_mod(beta, k, p),
            pow_mod(alpha, x, p),
            pow_mod(beta, x, p),
            c,
            solve_spec(k, c, x, q),
            alpha,
            beta,
            p,
        ),
{
    lemma_verify_equation(alpha, p, q, x, k, c);
    lemma_verify_equation(beta, p, q, x, k, c);
}

/// The deterministic fragment of eavesdropper rejection: for one nonce and
/// challenge, two secret guesses whose products with the challenge differ
/// modulo `q` give different responses. (That the differing response then
/// fails the verification equations rests on the group's structure and is
/// a probabilistic claim, so it is not stated here.)
pub proof fn lemma_wrong_secret_changes_response(k: nat, c: nat, x1: nat, x2: nat, q: nat)
    requires
        q > 0,
        (c * x1) % q != (c * x2) % q,
    ensures
        solve_spec(k, c, x1, q) != solve_spec(k, c, x2, q),
{
    let qi = q as int;
    let d1 = k as int - (c * x1) as int;
    let d2 = k as int - (c * x2) as int;
    if d1 % qi == d2 % qi {
        lemma_sub_mod_noop(k as int, d1, qi);
        lemma_sub_mod_noop(k as int, d2, qi);
        assert((c * x1) as int % qi == (k as int % qi - d1 % qi) % qi);
        assert((c * x2) as int % qi == (k as int % qi - d2 % qi) % qi);
        assert(false);
    }
}

/// The response of `solve` lies in `[0, q)` for all inputs, including when
/// `k < c * x`.
pub proof fn lemma_solve_in_range(k: nat, c: nat, x: nat, q: nat)
    requires
        q > 0,
    ensures
        solve_spec(k, c, x, q) < q,
{
    lemma_solve_spec_bounds(k, c, x, q);
}

} // verus!
