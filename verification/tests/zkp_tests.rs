use num_bigint::BigUint;
use zkp_chaum_pedersen::zkp_cp::ZKP;

#[test]
fn test_1024bits() {
    let (alpha, beta, p, q) = ZKP::get_const();

    let zkp: ZKP = ZKP {
        p: p.clone(),
        q: q.clone(),
        alpha: alpha.clone(),
        beta: beta.clone(),
    };

    let x: BigUint = ZKP::gen_rand(&q);
    let k: BigUint = ZKP::gen_rand(&q);

    let c: BigUint = ZKP::gen_rand(&q);

    let y1: BigUint = ZKP::pow(&alpha, &x, &p);
    let y2: BigUint = ZKP::pow(&beta, &x, &p);

    let r1: BigUint = ZKP::pow(&alpha, &k, &p);
    let r2: BigUint = ZKP::pow(&beta, &k, &p);

    let s: BigUint = zkp.solve(&k, &c, &x);

    let res: bool = zkp.verify(&r1, &r2, &y1, &y2, &c, &s);

    assert!(res);

    let eaves_x: BigUint = BigUint::from(7u32);
    let eaves_s: BigUint = zkp.solve(&k, &c, &eaves_x);
    let eaves_res: bool = zkp.verify(&r1, &r2, &y1, &y2, &c, &eaves_s);

    assert!(!eaves_res);
}

#[test]
fn test_rand() {
    let rand1: BigUint = ZKP::gen_rand(&BigUint::from(100u32));
    let rand2: BigUint = ZKP::gen_rand(&BigUint::from(100u32));

    println!("{}", rand1);
    println!("{}", rand2);
}

#[test]
fn test_example() {
    let alpha: BigUint = BigUint::from(4u32);
    let beta: BigUint = BigUint::from(9u32);

    let p: BigUint = BigUint::from(23u32);
    let q: BigUint = BigUint::from(11u32);

    let zkp: ZKP = ZKP {
        p: p.clone(),
        q: q.clone(),
        alpha: alpha.clone(),
        beta: beta.clone(),
    };

    let x: BigUint = BigUint::from(6u32);
    let k: BigUint = BigUint::from(7u32);

    let c: BigUint = BigUint::from(4u32);

    let y1: BigUint = ZKP::pow(&alpha, &x, &p);
    let y2: BigUint = ZKP::pow(&beta, &x, &p);

    let r1: BigUint = ZKP::pow(&alpha, &k, &p);
    let r2: BigUint = ZKP::pow(&beta, &k, &p);

    assert_eq!(y1, BigUint::from(2u32));
    assert_eq!(y2, BigUint::from(3u32));

    assert_eq!(r1, BigUint::from(8u32));
    assert_eq!(r2, BigUint::from(4u32));

    let s: BigUint = zkp.solve(&k, &c, &x);

    assert_eq!(s, BigUint::from(5u32));

    let res: bool = zkp.verify(&r1, &r2, &y1, &y2, &c, &s);

    assert!(res);

    let eaves_x: BigUint = BigUint::from(7u32);
    let eaves_s: BigUint = zkp.solve(&k, &c, &eaves_x);
    let eaves_res: bool = zkp.verify(&r1, &r2, &y1, &y2, &c, &eaves_s);

    assert!(!eaves_res);
}

#[test]
fn pow_handles_zero_exponent_and_zero_base() {
    let p: BigUint = BigUint::from(23u32);
    // Anything to the zeroth power is 1.
    assert_eq!(
        ZKP::pow(&BigUint::from(4u32), &BigUint::from(0u32), &p),
        BigUint::from(1u32)
    );
    assert_eq!(
        ZKP::pow(&BigUint::from(0u32), &BigUint::from(0u32), &p),
        BigUint::from(1u32)
    );
    // A zero base stays zero under any positive exponent.
    assert_eq!(
        ZKP::pow(&BigUint::from(0u32), &BigUint::from(5u32), &p),
        BigUint::from(0u32)
    );
}

#[test]
fn verify_gives_no_partial_credit() {
    // The toy group of test_example: both equations must hold, not one.
    let zkp: ZKP = ZKP {
        p: BigUint::from(23u32),
        q: BigUint::from(11u32),
        alpha: BigUint::from(4u32),
        beta: BigUint::from(9u32),
    };
    let y1: BigUint = BigUint::from(2u32);
    let y2: BigUint = BigUint::from(3u32);
    let r1: BigUint = BigUint::from(8u32);
    let r2: BigUint = BigUint::from(4u32);
    let c: BigUint = BigUint::from(4u32);
    let s: BigUint = BigUint::from(5u32);

    assert!(zkp.verify(&r1, &r2, &y1, &y2, &c, &s));
    // First equation still holds, second broken: refused.
    assert!(!zkp.verify(&r1, &BigUint::from(5u32), &y1, &y2, &c, &s));
    // Second equation still holds, first broken: refused.
    assert!(!zkp.verify(&BigUint::from(9u32), &r2, &y1, &y2, &c, &s));
}

#[test]
fn solve_wraps_into_range() {
    // k < c * x forces the wraparound branch; the response stays in [0, q).
    let q: BigUint = BigUint::from(11u32);
    let zkp: ZKP = ZKP {
        p: BigUint::from(23u32),
        q: q.clone(),
        alpha: BigUint::from(4u32),
        beta: BigUint::from(9u32),
    };
    // 7 - 4 * 6 = -17, and -17 mod 11 = 5.
    let s: BigUint = zkp.solve(
        &BigUint::from(7u32),
        &BigUint::from(4u32),
        &BigUint::from(6u32),
    );
    assert_eq!(s, BigUint::from(5u32));
    assert!(s < q);

    // 24 - 4 * 6 = 0: the wrapped remainder of zero must give 0, not q.
    let s0: BigUint = zkp.solve(
        &BigUint::from(24u32),
        &BigUint::from(4u32),
        &BigUint::from(6u32),
    );
    assert_eq!(s0, BigUint::from(0u32));

    // 23 - 4 * 6 = -1, and -1 mod 11 = 10.
    let s1: BigUint = zkp.solve(
        &BigUint::from(23u32),
        &BigUint::from(4u32),
        &BigUint::from(6u32),
    );
    assert_eq!(s1, BigUint::from(10u32));
}

#[test]
fn gen_rand_is_below_limit() {
    let limit: BigUint = BigUint::from(17u32);
    let mut i: usize = 0;
    while i < 50 {
        let r: BigUint = ZKP::gen_rand(&limit);
        assert!(r < limit);
        i += 1;
    }
}

#[test]
fn gen_rand_str_is_alphanumeric() {
    let id: String = ZKP::gen_rand_str(12);
    assert_eq!(id.len(), 12);
    for ch in id.chars() {
        assert!(ch.is_ascii_alphanumeric());
    }
    let empty: String = ZKP::gen_rand_str(0);
    assert_eq!(empty.len(), 0);
}

#[test]
fn group_constants_form_a_group() {
    // alpha and beta generate a subgroup of order q: alpha^q = beta^q = 1,
    // and q divides p - 1.
    let (alpha, beta, p, q) = ZKP::get_const();
    let one: BigUint = BigUint::from(1u32);
    assert_eq!(ZKP::pow(&alpha, &q, &p), one);
    assert_eq!(ZKP::pow(&beta, &q, &p), one);
    assert_eq!((&p - &one) % &q, BigUint::from(0u32));
    assert!(alpha != one && beta != one);
}
