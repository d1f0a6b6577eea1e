use num_bigint::BigUint;
use zkp_chaum_pedersen::prover::ProverSession;
use zkp_chaum_pedersen::server::{AuthError, AuthImpl};
use zkp_chaum_pedersen::zkp_cp::ZKP;

fn group() -> ZKP {
    let (alpha, beta, p, q) = ZKP::get_const();
    ZKP { p, q, alpha, beta }
}

fn register_user(server: &mut AuthImpl, name: &str, secret: &BigUint) {
    let prover = ProverSession::new(group());
    let (y1, y2) = prover.commitments(secret);
    server.register(name.to_string(), y1.to_bytes_be(), y2.to_bytes_be());
}

/// One full authentication round trip; returns the server's answer.
fn authenticate(
    server: &mut AuthImpl,
    name: &str,
    secret_guess: &BigUint,
) -> Result<String, AuthError> {
    let prover = ProverSession::new(group());
    let k = ZKP::gen_rand(&prover.zkp.q);
    let (r1, r2) = prover.commitments(&k);
    let (auth_id, c_bytes) = server
        .create_authentication_challenge(name.to_string(), r1.to_bytes_be(), r2.to_bytes_be())
        .expect("challenge for a registered user");
    let c = BigUint::from_bytes_be(&c_bytes);
    let s = prover.challenge_response(&k, &c, secret_guess);
    server.verify_authentication(auth_id, s.to_bytes_be())
}

#[test]
fn registered_user_with_right_secret_gets_session() {
    let mut server = AuthImpl::new();
    let secret = BigUint::from(123456789u32);
    register_user(&mut server, "alice", &secret);
    let session = authenticate(&mut server, "alice", &secret).expect("proof must verify");
    assert_eq!(session.len(), 12);
}

#[test]
fn wrong_secret_is_permission_denied() {
    let mut server = AuthImpl::new();
    register_user(&mut server, "alice", &BigUint::from(123456789u32));
    let res = authenticate(&mut server, "alice", &BigUint::from(987654321u32));
    assert_eq!(res, Err(AuthError::PermissionDenied));
}

#[test]
fn challenge_for_unknown_user_is_user_not_found() {
    let mut server = AuthImpl::new();
    register_user(&mut server, "alice", &BigUint::from(5u32));
    let res = server.create_authentication_challenge(
        "mallory".to_string(),
        vec![1u8],
        vec![2u8],
    );
    assert_eq!(res, Err(AuthError::UserNotFound));
}

#[test]
fn second_challenge_invalidates_first_auth_id() {
    let mut server = AuthImpl::new();
    let secret = BigUint::from(42u32);
    register_user(&mut server, "alice", &secret);

    let prover = ProverSession::new(group());
    let k = ZKP::gen_rand(&prover.zkp.q);
    let (r1, r2) = prover.commitments(&k);

    let (first_id, first_c) = server
        .create_authentication_challenge("alice".to_string(), r1.to_bytes_be(), r2.to_bytes_be())
        .expect("first challenge");
    let (_second_id, _second_c) = server
        .create_authentication_challenge("alice".to_string(), r1.to_bytes_be(), r2.to_bytes_be())
        .expect("second challenge");

    // Answer the first challenge correctly, but under its superseded id.
    let c = BigUint::from_bytes_be(&first_c);
    let s = prover.challenge_response(&k, &c, &secret);
    let res = server.verify_authentication(first_id, s.to_bytes_be());
    assert_eq!(res, Err(AuthError::InvalidAuthId));
}

#[test]
fn auth_id_is_single_use() {
    let mut server = AuthImpl::new();
    let secret = BigUint::from(42u32);
    register_user(&mut server, "alice", &secret);

    let prover = ProverSession::new(group());
    let k = ZKP::gen_rand(&prover.zkp.q);
    let (r1, r2) = prover.commitments(&k);
    let (auth_id, c_bytes) = server
        .create_authentication_challenge("alice".to_string(), r1.to_bytes_be(), r2.to_bytes_be())
        .expect("challenge");
    let c = BigUint::from_bytes_be(&c_bytes);
    let s = prover.challenge_response(&k, &c, &secret);

    let first = server.verify_authentication(auth_id.clone(), s.to_bytes_be());
    assert!(first.is_ok());
    // Replaying the same response against the same id must be refused.
    let replay = server.verify_authentication(auth_id, s.to_bytes_be());
    assert_eq!(replay, Err(AuthError::InvalidAuthId));
}

#[test]
fn unknown_auth_id_is_invalid() {
    let mut server = AuthImpl::new();
    register_user(&mut server, "alice", &BigUint::from(5u32));
    let res = server.verify_authentication("never-issued".to_string(), vec![3u8]);
    assert_eq!(res, Err(AuthError::InvalidAuthId));
}

#[test]
fn distinct_users_do_not_disturb_each_other() {
    let mut server = AuthImpl::new();
    let alice_secret = BigUint::from(111111u32);
    let bob_secret = BigUint::from(222222u32);

    // Interleave the registrations and flows of two users.
    register_user(&mut server, "alice", &alice_secret);
    register_user(&mut server, "bob", &bob_secret);

    let alice_session =
        authenticate(&mut server, "alice", &alice_secret).expect("alice verifies");
    let bob_session = authenticate(&mut server, "bob", &bob_secret).expect("bob verifies");
    assert_eq!(alice_session.len(), 12);
    assert_eq!(bob_session.len(), 12);

    // Re-registering bob must not disturb alice's stored commitments.
    register_user(&mut server, "bob", &BigUint::from(333333u32));
    authenticate(&mut server, "alice", &alice_secret).expect("alice still verifies");
}
