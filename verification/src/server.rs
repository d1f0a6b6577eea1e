//! The verifier's state machine: registered commitments, outstanding
//! challenges, and the auth-id bindings, with the registration /
//! challenge / verification lifecycle over them.
//!
//! Policy choices, as the protocol asks: re-registration silently replaces
//! the stored commitments; a new challenge for a username supersedes any
//! earlier one, so a stale auth id no longer validates; and an auth id is
//! single-use — after one verification attempt, successful or not, it no
//! longer validates. Superseded bindings stay in the auth-id map (they can
//! never validate again); reclaiming them is left to the surrounding
//! service layer.

use vstd::prelude::*;

use num_bigint::BigUint;

use crate::bignum::{
    be_bytes_value, big_clone, big_from_bytes_be, big_from_u32, lemma_be_bytes_roundtrip,
    value_of,
};
use crate::strmap::StrMap;
use crate::zkp_cp::{
    group_alpha, group_beta, group_p, group_q, is_alphanumeric_char, verify_spec, ZKP,
};

verus! {

/// Why a request was refused.
#[derive(Debug, Clone, Copy, PartialEq, Eq, Structural)]
pub enum AuthError {
    /// A challenge was requested for a username that was never registered.
    UserNotFound,
    /// The auth id was never issued, was superseded by a newer challenge,
    /// or was already consumed by a verification attempt.
    InvalidAuthId,
    /// The response failed the verification equations.
    PermissionDenied,
}

/// The server-side state for one user's most recent authentication attempt.
pub struct UserInfo {
    pub username: String,
    /// Registered commitments `alpha^x` and `beta^x`.
    pub y1: BigUint,
    pub y2: BigUint,
    /// Commitments `alpha^k` and `beta^k` of the current attempt.
    pub r1: BigUint,
    pub r2: BigUint,
    /// The challenge of the current attempt.
    pub c: BigUint,
    /// The auth id the current challenge was issued under; `None` once it
    /// is consumed or before any challenge exists.
    pub current_auth_id: Option<String>,
}

/// The mathematical content of a `UserInfo`.
pub struct UserView {
    pub username: Seq<char>,
    pub y1: nat,
    pub y2: nat,
    pub r1: nat,
    pub r2: nat,
    pub c: nat,
    pub current_auth_id: Option<Seq<char>>,
}

impl View for UserInfo {
    type V = UserView;

    open spec fn view(&self) -> UserView {
        UserView {
            username: self.username@,
            y1: value_of(self.y1),
            y2: value_of(self.y2),
            r1: value_of(self.r1),
            r2: value_of(self.r2),
            c: value_of(self.c),
            current_auth_id: match self.current_auth_id {
                Some(a) => Some(a@),
                None => None,
            },
        }
    }
}

/// An auth id validates only while it is bound to a username whose record
/// still names it as the current attempt.
pub open spec fn auth_id_current(
    users: Map<Seq<char>, UserView>,
    auth: Map<Seq<char>, Seq<char>>,
    aid: Seq<char>,
) -> bool {
    &&& auth.contains_key(aid)
    &&& users.contains_key(auth[aid])
    &&& users[auth[aid]].current_auth_id == Some(aid)
}

/// The verifier's store: per-username records and auth-id bindings.
pub struct AuthImpl {
    user_info_storage: StrMap<UserInfo>,
    auth_id_storage: StrMap<String>,
}

impl AuthImpl {
    /// The registered users, by username.
    pub closed spec fn users(&self) -> Map<Seq<char>, UserView> {
        self.user_info_storage@
    }

    /// The issued auth-id bindings, by auth id.
    pub closed spec fn auth_ids(&self) -> Map<Seq<char>, Seq<char>> {
        self.auth_id_storage@
    }

    /// Both maps are well formed, and every binding names a stored user.
    pub closed spec fn wf(&self) -> bool {
        &&& self.user_info_storage.wf()
        &&& self.auth_id_storage.wf()
        &&& forall|aid: Seq<char>| #[trigger]
            self.auth_ids().contains_key(aid) ==> self.users().contains_key(self.auth_ids()[aid])
    }

    /// A fresh store with no users and no bindings.
    pub fn new() -> (r: Self)
        ensures
            r.wf(),
            r.users() == Map::<Seq<char>, UserView>::empty(),
            r.auth_ids() == Map::<Seq<char>, Seq<char>>::empty(),
    {
        AuthImpl { user_info_storage: StrMap::new(), auth_id_storage: StrMap::new() }
    }

    /// Store (or silently replace) the commitments registered for a
    /// username, read from their big-endian byte encodings. Any pending
    /// challenge for that username is discarded with the old record.
    pub fn register(&mut self, username: String, y1: Vec<u8>, y2: Vec<u8>)
        requires
            old(self).wf(),
        ensures
            final(self).wf(),
            final(self).users() == old(self).users().insert(
                username@,
                (UserView {
                    username: username@,
                    y1: be_bytes_value(y1@),
                    y2: be_bytes_value(y2@),
                    r1: 0,
                    r2: 0,
                    c: 0,
                    current_auth_id: None,
                }),
            ),
            final(self).auth_ids() == old(self).auth_ids(),
    {
        let user_info = UserInfo {
            username: username.clone(),
            y1: big_from_bytes_be(y1.as_slice()),
            y2: big_from_bytes_be(y2.as_slice()),
            r1: big_from_u32(0),
            r2: big_from_u32(0),
            c: big_from_u32(0),
            current_auth_id: None,
        };
        self.user_info_storage.insert(username, user_info);
        proof {
            self.lemma_bindings_preserved(*old(self));
        }
    }

    /// Every binding of the old state still names a stored user when the
    /// bindings are unchanged and the user map only gained keys.
    proof fn lemma_bindings_preserved(&self, prev: Self)
        requires
            prev.wf(),
            self.auth_ids() == prev.auth_ids(),
            forall|u: Seq<char>| prev.users().contains_key(u) ==> #[trigger] self.users()
                .contains_key(u),
        ensures
            forall|aid: Seq<char>| #[trigger]
                self.auth_ids().contains_key(aid) ==> self.users().contains_key(
                self.auth_ids()[aid],
            ),
    {
        assert forall|aid: Seq<char>| #[trigger]
            self.auth_ids().contains_key(aid) implies self.users().contains_key(
            self.auth_ids()[aid],
        ) by {
            assert(prev.auth_ids().contains_key(aid));
            assert(prev.users().contains_key(prev.auth_ids()[aid]));
        }
    }

    /// Issue a challenge for a registered username: store the attempt
    /// commitments, draw a random challenge below the group order, bind a
    /// fresh auth id, and supersede any earlier attempt for that username.
    /// Fails with `UserNotFound`, and changes nothing, exactly when the
    /// username was never registered.
    pub fn create_authentication_challenge(
        &mut self,
        username: String,
        r1: Vec<u8>,
        r2: Vec<u8>,
    ) -> (res: Result<(String, Vec<u8>), AuthError>)
        requires
            old(self).wf(),
        ensures
            final(self).wf(),
            match res {
                Ok(granted) => {
                    &&& old(self).users().contains_key(username@)
                    &&& granted.0@.len() == 12
                    &&& forall|i: int| 0 <= i < granted.0@.len() ==> is_alphanumeric_char(
                        #[trigger] granted.0@[i],
                    )
                    &&& be_bytes_value(granted.1@) < group_q()
                    &&& final(self).users() == old(self).users().insert(
                        username@,
                        (UserView {
                            r1: be_bytes_value(r1@),
                            r2: be_bytes_value(r2@),
                            c: be_bytes_value(granted.1@),
                            current_auth_id: Some(granted.0@),
                            ..old(self).users()[username@]
                        }),
                    )
                    &&& final(self).auth_ids() == old(self).auth_ids().insert(
                        granted.0@,
                        username@,
                    )
                },
                Err(e) => {
                    &&& e == AuthError::UserNotFound
                    &&& !old(self).users().contains_key(username@)
                    &&& *final(self) == *old(self)
                },
            },
    {
        match self.user_info_storage.get(&username) {
            Some(user) => {
                let uname = user.username.clone();
                let y1 = big_clone(&user.y1);
                let y2 = big_clone(&user.y2);

                let (_alpha, _beta, _p, q) = ZKP::get_const();
                let aid = ZKP::gen_rand_str(12);
                let c = ZKP::gen_rand(&q);
                let c_bytes = crate::bignum::big_to_bytes_be(&c);
                proof {
                    lemma_be_bytes_roundtrip(value_of(c));
                }

                let user_info = UserInfo {
                    username: uname,
                    y1,
                    y2,
                    r1: big_from_bytes_be(r1.as_slice()),
                    r2: big_from_bytes_be(r2.as_slice()),
                    c,
                    current_auth_id: Some(aid.clone()),
                };
                self.user_info_storage.insert(username.clone(), user_info);
                self.auth_id_storage.insert(aid.clone(), username);
                proof {
                    assert forall|a: Seq<char>| #[trigger]
                        self.auth_ids().contains_key(a) implies self.users().contains_key(
                        self.auth_ids()[a],
                    ) by {
                        if a != aid@ {
                            assert(old(self).auth_ids().contains_key(a));
                            assert(old(self).users().contains_key(old(self).auth_ids()[a]));
                        }
                    }
                }
                Ok((aid, c_bytes))
            },
            None => Err(AuthError::UserNotFound),
        }
    }

    /// Check a response against the challenge its auth id was issued for.
    /// The auth id must be bound and must still be the named user's current
    /// attempt; otherwise nothing changes and the result is
    /// `InvalidAuthId`. Whatever the outcome of the check itself, the
    /// attempt is consumed: the auth id no longer validates afterwards. On
    /// a valid response a fresh session id is returned; on a failed one,
    /// `PermissionDenied`.
    pub fn verify_authentication(&mut self, auth_id: String, s: Vec<u8>) -> (res: Result<
        String,
        AuthError,
    >)
        requires
            old(self).wf(),
        ensures
            final(self).wf(),
            final(self).auth_ids() == old(self).auth_ids(),
            match res {
                Ok(session_id) => {
                    let uname = old(self).auth_ids()[auth_id@];
                    let rec = old(self).users()[uname];
                    &&& auth_id_current(old(self).users(), old(self).auth_ids(), auth_id@)
                    &&& verify_spec(
                        rec.r1,
                        rec.r2,
                        rec.y1,
                        rec.y2,
                        rec.c,
                        be_bytes_value(s@),
                        group_alpha(),
                        group_beta(),
                        group_p(),
                    )
                    &&& session_id@.len() == 12
                    &&& forall|i: int| 0 <= i < session_id@.len() ==> is_alphanumeric_char(
                        #[trigger] session_id@[i],
                    )
                    &&& final(self).users() == old(self).users().insert(
                        uname,
                        (UserView { current_auth_id: None, ..rec }),
                    )
                },
                Err(AuthError::InvalidAuthId) => {
                    &&& !auth_id_current(old(self).users(), old(self).auth_ids(), auth_id@)
                    &&& *final(self) == *old(self)
                },
                Err(AuthError::PermissionDenied) => {
                    let uname = old(self).auth_ids()[auth_id@];
                    let rec = old(self).users()[uname];
                    &&& auth_id_current(old(self).users(), old(self).auth_ids(), auth_id@)
                    &&& !verify_spec(
                        rec.r1,
                        rec.r2,
                        rec.y1,
                        rec.y2,
                        rec.c,
                        be_bytes_value(s@),
                        group_alpha(),
                        group_beta(),
                        group_p(),
                    )
                    &&& final(self).users() == old(self).users().insert(
                        uname,
                        (UserView { current_auth_id: None, ..rec }),
                    )
                },
                Err(AuthError::UserNotFound) => false,
            },
    {
        let username = match self.auth_id_storage.get(&auth_id) {
            Some(u) => u.clone(),
            None => {
                return Err(AuthError::InvalidAuthId);
            },
        };
        match self.user_info_storage.get(&username) {
            Some(user) => {
                let is_current = match &user.current_auth_id {
                    Some(cur) => *cur == auth_id,
                    None => false,
                };
                if !is_current {
                    return Err(AuthError::InvalidAuthId);
                }

                let uname = user.username.clone();
                let y1 = big_clone(&user.y1);
                let y2 = big_clone(&user.y2);
                let r1 = big_clone(&user.r1);
                let r2 = big_clone(&user.r2);
                let c = big_clone(&user.c);

                let s_value = big_from_bytes_be(s.as_slice());
                let (alpha, beta, p, q) = ZKP::get_const();
                let zkp = ZKP { p, q, alpha, beta };
                let accepted = zkp.verify(&r1, &r2, &y1, &y2, &c, &s_value);

                let consumed = UserInfo {
                    username: uname,
                    y1,
                    y2,
                    r1,
                    r2,
                    c,
                    current_auth_id: None,
                };
                self.user_info_storage.insert(username, consumed);
                proof {
                    self.lemma_bindings_preserved(*old(self));
                }

                if accepted {
                    Ok(ZKP::gen_rand_str(12))
                } else {
                    Err(AuthError::PermissionDenied)
                }
            },
            None => {
                proof {
                    // Every binding names a stored user, so this branch
                    // cannot be reached.
                    assert(false);
                }
                Err(AuthError::InvalidAuthId)
            },
        }
    }
}

/// A second challenge for the same username supersedes the first. After
/// the state change `create_authentication_challenge` promises for the
/// second call — record replaced with one naming the new auth id, new
/// binding inserted — the first auth id is no longer current, so
/// `verify_authentication` refuses it with `InvalidAuthId`.
pub proof fn lemma_second_challenge_invalidates_first(
    users1: Map<Seq<char>, UserView>,
    auth1: Map<Seq<char>, Seq<char>>,
    users2: Map<Seq<char>, UserView>,
    auth2: Map<Seq<char>, Seq<char>>,
    username: Seq<char>,
    aid1: Seq<char>,
    aid2: Seq<char>,
    rec2: UserView,
)
    requires
        aid1 != aid2,
        auth1.contains_key(aid1),
        auth1[aid1] == username,
        rec2.current_auth_id == Some(aid2),
        users2 == users1.insert(username, rec2),
        auth2 == auth1.insert(aid2, username),
    ensures
        !auth_id_current(users2, auth2, aid1),
{
}

/// Registering one username never touches another username's record: after
/// the insert `register` promises, every other stored record is unchanged.
pub proof fn lemma_register_no_crosstalk(
    users: Map<Seq<char>, UserView>,
    u1: Seq<char>,
    u2: Seq<char>,
    rec2: UserView,
)
    requires
        u1 != u2,
        users.contains_key(u1),
    ensures
        users.insert(u2, rec2).contains_key(u1),
        users.insert(u2, rec2)[u1] == users[u1],
{
}

} // verus!
