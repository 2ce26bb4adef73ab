use vstd::pervasive::VecAdditionalExecFns;
use vstd::prelude::*;
use vstd::utf8::encode_utf8;

use crate::domain::{
    AuthStatus, BearerFailure, BearerMaterial, FailureReason, ListUser, LoginFailure, LoginMessage,
    LoginRes, LoginStatus, RefusedReason, RegisterRes, Registration, RegistrationStatus, Token,
    User,
};
use crate::hashing::pwd_matches;

verus! {

/// Whether some user in `users` carries the username `name`.
pub open spec fn has_username(users: Seq<User>, name: Seq<char>) -> bool {
    exists|i: int| 0 <= i < users.len() && users[i].username@ == name
}

/// Whether some user in `users` carries the identifier `uid`.
pub open spec fn has_uid(users: Seq<User>, uid: u64) -> bool {
    exists|i: int| 0 <= i < users.len() && users[i].uid == uid
}

/// The index of the user carrying `uid`; meaningful only when `has_uid`
/// holds, and then unique under the store's well-formedness.
pub open spec fn user_idx(users: Seq<User>, uid: u64) -> int {
    choose|i: int| 0 <= i < users.len() && users[i].uid == uid
}

/// A username is well formed when every byte of it is a graphic ASCII
/// character: no spaces, no control bytes, nothing outside ASCII.
pub open spec fn well_formed_name(bs: Seq<u8>) -> bool {
    forall|i: int| 0 <= i < bs.len() ==> 33 <= #[trigger] bs[i] <= 126
}

/// Whether `name` and `pass` are credentials the store accepts: some
/// registered user carries the name and the password verifies against
/// that user's stored hash.
pub open spec fn cred_ok(users: Seq<User>, name: Seq<char>, pass: Seq<char>) -> bool {
    exists|i: int|
        0 <= i < users.len() && users[i].username@ == name && pwd_matches(
            pass,
            users[i].stored_hash(),
        )
}

/// The login outcome the store owes for the given credentials. Mismatched
/// username and mismatched password collapse into one indistinguishable
/// failure, so a caller learns nothing about which of the two was wrong.
pub open spec fn spec_login_status(users: Seq<User>, name: Seq<char>, pass: Seq<char>) -> LoginStatus {
    if cred_ok(users, name, pass) {
        LoginStatus::Passed
    } else {
        LoginStatus::Failed(LoginFailure::UserFailure)
    }
}

/// The validation outcome owed for bearer material, checked in order:
/// presence of the material, parseability, expiry, and finally that the
/// embedded identity and token version match the user's current ones. A
/// token is live only strictly before its expiry instant: at that instant
/// it is already expired.
pub open spec fn spec_validate(
    users: Seq<User>,
    material: BearerMaterial,
    expected_uid: u64,
    now: u64,
) -> AuthStatus {
    match material {
        BearerMaterial::MissingHeader => AuthStatus::Fail(BearerFailure::EmptyHeader),
        BearerMaterial::MissingCookie => AuthStatus::Fail(BearerFailure::EmptyCookie),
        BearerMaterial::Garbled => AuthStatus::Fail(BearerFailure::ParsingError),
        BearerMaterial::IrregularComponents => AuthStatus::Fail(BearerFailure::BadJwtComponent),
        BearerMaterial::Claims(t) => {
            if t.expires_at <= now {
                AuthStatus::Fail(BearerFailure::ExpiredJwt)
            } else if !has_uid(users, expected_uid) || t.uid != expected_uid || t.version
                != users[user_idx(users, expected_uid)].token_version {
                AuthStatus::Fail(BearerFailure::InvalidToken)
            } else {
                AuthStatus::Success
            }
        },
    }
}

/// Law: a login under an unknown username and a login under a known
/// username with a wrong password yield the very same status value, so
/// the two failures are indistinguishable to the caller and usernames
/// cannot be enumerated through the login reply.
pub proof fn lemma_login_failures_indistinguishable(
    users: Seq<User>,
    n1: Seq<char>,
    p1: Seq<char>,
    n2: Seq<char>,
    p2: Seq<char>,
)
    requires
        !has_username(users, n1),
        !cred_ok(users, n2, p2),
    ensures
        spec_login_status(users, n1, p1) == spec_login_status(users, n2, p2),
        spec_login_status(users, n1, p1) == LoginStatus::Failed(LoginFailure::UserFailure),
{
    assert(!cred_ok(users, n1, p1)) by {
        if cred_ok(users, n1, p1) {
            let i = choose|i: int|
                0 <= i < users.len() && users[i].username@ == n1 && pwd_matches(
                    p1,
                    users[i].stored_hash(),
                );
            assert(users[i].username@ == n1);
        }
    }
}

/// Law: bumping a user's token version invalidates every token issued
/// before the bump, while the same token, unexpired, was accepted before
/// it.
pub proof fn lemma_bump_invalidates(
    users: Seq<User>,
    bumped: Seq<User>,
    uid: u64,
    t: Token,
    now: u64,
)
    requires
        forall|i: int, j: int| 0 <= i < j < users.len() ==> users[i].uid != users[j].uid,
        has_uid(users, uid),
        t.uid == uid,
        t.version == users[user_idx(users, uid)].token_version,
        users[user_idx(users, uid)].token_version < u64::MAX,
        now < t.expires_at,
        bumped == users.update(
            user_idx(users, uid),
            (User {
                token_version: (users[user_idx(users, uid)].token_version + 1) as u64,
                ..users[user_idx(users, uid)]
            }),
        ),
    ensures
        spec_validate(users, BearerMaterial::Claims(t), uid, now) == AuthStatus::Success,
        spec_validate(bumped, BearerMaterial::Claims(t), uid, now) == AuthStatus::Fail(
            BearerFailure::InvalidToken,
        ),
{
    let k = user_idx(users, uid);
    assert(0 <= k < users.len() && users[k].uid == uid);
    assert(bumped[k].uid == uid);
    assert(has_uid(bumped, uid));
    let k2 = user_idx(bumped, uid);
    assert(0 <= k2 < bumped.len() && bumped[k2].uid == uid);
    assert(k2 == k) by {
        if k2 != k {
            assert(bumped[k2] == users[k2]);
        }
    }
}

/// The identity store: owns every registered user, verifies credentials,
/// and issues and validates bearer tokens.
pub struct IdentityStore {
    pub users: Vec<User>,
    pub next_uid: u64,
}

impl IdentityStore {
    /// Well-formedness: identifiers and usernames are unique, and every
    /// identifier was assigned below the next one to hand out.
    pub open spec fn wf(&self) -> bool {
        &&& (forall|i: int, j: int|
            0 <= i < j < self.users@.len() ==> self.users@[i].uid != self.users@[j].uid)
        &&& (forall|i: int, j: int|
            0 <= i < j < self.users@.len() ==> self.users@[i].username@ != self.users@[j].username@)
        &&& (forall|i: int|
            0 <= i < self.users@.len() ==> #[trigger] self.users@[i].uid < self.next_uid)
    }

    /// An empty store.
    pub fn new() -> (s: IdentityStore)
        ensures
            s.wf(),
            s.users@.len() == 0,
            s.next_uid == 0,
    {
        IdentityStore { users: Vec::new(), next_uid: 0 }
    }

    /// The index of the user named `name`, if any.
    fn find_by_name(&self, name: &String) -> (r: Option<usize>)
        ensures
            match r {
                Some(i) => i < self.users@.len() && self.users@[i as int].username@ == name@,
                None => !has_username(self.users@, name@),
            },
    {
        let mut i: usize = 0;
        while i < self.users.len()
            invariant
                i <= self.users@.len(),
                forall|j: int| 0 <= j < i ==> self.users@[j].username@ != name@,
            decreases self.users@.len() - i,
        {
            if self.users[i].username.eq(name) {
                return Some(i);
            }
            i = i + 1;
        }
        None
    }

    /// The index of the user carrying `uid`, if any.
    pub(crate) fn find_by_uid(&self, uid: u64) -> (r: Option<usize>)
        ensures
            match r {
                Some(i) => i < self.users@.len() && self.users@[i as int].uid == uid,
                None => !has_uid(self.users@, uid),
            },
    {
        let mut i: usize = 0;
        while i < self.users.len()
            invariant
                i <= self.users@.len(),
                forall|j: int| 0 <= j < i ==> self.users@[j].uid != uid,
            decreases self.users@.len() - i,
        {
            if self.users[i].uid == uid {
                return Some(i);
            }
            i = i + 1;
        }
        None
    }

    /// Whether every byte of `name` is graphic ASCII.
    fn name_well_formed(name: &String) -> (r: bool)
        ensures
            r == well_formed_name(encode_utf8(name@)),
    {
        let bs = name.as_str().as_bytes();
        let mut i: usize = 0;
        while i < bs.len()
            invariant
                bs@ == encode_utf8(name@),
                i <= bs@.len(),
                forall|j: int| 0 <= j < i ==> 33 <= #[trigger] bs@[j] <= 126,
            decreases bs@.len() - i,
        {
            if bs[i] < 33 || bs[i] > 126 {
                proof {
                    let bad = i as int;
                    assert(0 <= bad < encode_utf8(name@).len());
                    assert(!(33 <= encode_utf8(name@)[bad] <= 126));
                    assert(!well_formed_name(encode_utf8(name@)));
                }
                return false;
            }
            i = i + 1;
        }
        true
    }

    /// Adopts an already-hashed user record under a fresh identifier.
    /// With a username nobody carries this always succeeds, whatever the
    /// record's hash looks like: everything the hashing primitive decided
    /// is already inside `u`.
    pub fn adopt(&mut self, u: User) -> (uid: u64)
        requires
            old(self).wf(),
            old(self).next_uid < u64::MAX,
            !has_username(old(self).users@, u.username@),
        ensures
            final(self).wf(),
            uid == old(self).next_uid,
            final(self).users@ == old(self).users@.push((User { uid, ..u })),
            final(self).next_uid == old(self).next_uid + 1,
    {
        let uid = self.next_uid;
        let mut adopted = u;
        adopted.uid = uid;
        self.users.push(adopted);
        self.next_uid = uid + 1;
        proof {
            assert forall|i: int, j: int|
                0 <= i < j < self.users@.len() implies self.users@[i].username@
                != self.users@[j].username@ by {
                if j == self.users@.len() - 1 {
                    assert(self.users@[i] == old(self).users@[i]);
                    if self.users@[i].username@ == u.username@ {
                        assert(has_username(old(self).users@, u.username@));
                    }
                }
            }
        }
        uid
    }

    /// Registers a user. Empty and malformed inputs are refused with the
    /// offending field; a taken username collides; otherwise the record
    /// is created unless the hashing primitive's entropy source fails,
    /// which surfaces as a storage write fault. The plaintext password is
    /// hashed before it is stored and never kept.
    pub fn register(&mut self, reg: Registration) -> (r: RegisterRes)
        requires
            old(self).wf(),
            old(self).next_uid < u64::MAX,
        ensures
            final(self).wf(),
            final(self).users@.len() >= old(self).users@.len(),
            reg.username@.len() == 0 ==> (r.status matches RegistrationStatus::REFUSED(
                RefusedReason::EMPTY,
                f,
            ) && f@ == "username"@),
            reg.username@.len() != 0 && !well_formed_name(encode_utf8(reg.username@))
                ==> (r.status matches RegistrationStatus::REFUSED(RefusedReason::BADFORMAT, f)
                && f@ == "username"@),
            reg.username@.len() != 0 && well_formed_name(encode_utf8(reg.username@))
                && reg.password@.len() == 0 ==> (r.status matches RegistrationStatus::REFUSED(
                RefusedReason::EMPTY,
                f,
            ) && f@ == "password"@),
            reg.username@.len() != 0 && well_formed_name(encode_utf8(reg.username@))
                && reg.password@.len() != 0 && has_username(old(self).users@, reg.username@)
                ==> r.status matches RegistrationStatus::FAILED(FailureReason::COLLISION),
            !(r.status is CREATED) ==> *final(self) == *old(self) && r.cl_id is None,
            r.status is CREATED ==> {
                &&& reg.username@.len() != 0
                &&& well_formed_name(encode_utf8(reg.username@))
                &&& reg.password@.len() != 0
                &&& !has_username(old(self).users@, reg.username@)
                &&& final(self).users@.len() == old(self).users@.len() + 1
                &&& (forall|i: int|
                    0 <= i < old(self).users@.len() ==> final(self).users@[i] == old(
                        self,
                    ).users@[i])
                &&& final(self).users@.last().username@ == reg.username@
                &&& final(self).users@.last().uid == old(self).next_uid
                &&& final(self).users@.last().token_version == 0
                &&& pwd_matches(reg.password@, final(self).users@.last().stored_hash())
                &&& final(self).next_uid == old(self).next_uid + 1
                &&& r.cl_id == Some(old(self).next_uid)
            },
            (r.status matches RegistrationStatus::FAILED(e) && e is ACCESSWRITEERROR)
                ==> *final(self) == *old(self),
            r.status matches RegistrationStatus::REFUSED(why, f) ==> ((why is EMPTY && f@
                == "username"@ && reg.username@.len() == 0) || (why is BADFORMAT && f@
                == "username"@ && reg.username@.len() != 0 && !well_formed_name(
                encode_utf8(reg.username@),
            )) || (why is EMPTY && f@ == "password"@ && reg.username@.len() != 0
                && well_formed_name(encode_utf8(reg.username@)) && reg.password@.len() == 0)),
            r.status matches RegistrationStatus::FAILED(e) ==> ((e is COLLISION && has_username(
                old(self).users@,
                reg.username@,
            )) || e is ACCESSWRITEERROR),
    {
        if reg.username.as_str().is_empty() {
            return RegisterRes {
                status: RegistrationStatus::REFUSED(RefusedReason::EMPTY, "username".to_owned()),
                cl_id: None,
            };
        }
        if !Self::name_well_formed(&reg.username) {
            return RegisterRes {
                status: RegistrationStatus::REFUSED(
                    RefusedReason::BADFORMAT,
                    "username".to_owned(),
                ),
                cl_id: None,
            };
        }
        if reg.password.as_str().is_empty() {
            return RegisterRes {
                status: RegistrationStatus::REFUSED(RefusedReason::EMPTY, "password".to_owned()),
                cl_id: None,
            };
        }
        if Self::find_by_name(self, &reg.username).is_some() {
            return RegisterRes {
                status: RegistrationStatus::FAILED(FailureReason::COLLISION),
                cl_id: None,
            };
        }
        match User::new(reg.username, reg.password) {
            Ok(u) => {
                let uid = self.adopt(u);
                RegisterRes { status: RegistrationStatus::CREATED, cl_id: Some(uid) }
            },
            Err(e) => RegisterRes { status: RegistrationStatus::FAILED(e), cl_id: None },
        }
    }

    /// Attempts a login. A missing username and a wrong password yield
    /// the one same failure value, so the two are indistinguishable to
    /// the caller; on success the reply carries the user's identifier.
    pub fn login(&self, msg: LoginMessage) -> (r: LoginRes)
        requires
            self.wf(),
        ensures
            r.status == spec_login_status(self.users@, msg.username@, msg.password@),
            r.status is Passed ==> (exists|i: int|
                0 <= i < self.users@.len() && self.users@[i].username@ == msg.username@
                    && r.cl_id == Some(self.users@[i].uid)),
            !(r.status is Passed) ==> r.cl_id is None,
    {
        match self.find_by_name(&msg.username) {
            None => {
                assert(!cred_ok(self.users@, msg.username@, msg.password@));
                LoginRes { status: LoginStatus::Failed(LoginFailure::UserFailure), cl_id: None }
            },
            Some(i) => {
                if self.users[i].comp_pass(msg.password.as_str()) {
                    LoginRes { status: LoginStatus::Passed, cl_id: Some(self.users[i].uid) }
                } else {
                    assert forall|j: int|
                        0 <= j < self.users@.len() && self.users@[j].username@ == msg.username@
                            implies !pwd_matches(msg.password@, self.users@[j].stored_hash()) by {
                        assert(j == i);
                    }
                    LoginRes { status: LoginStatus::Failed(LoginFailure::UserFailure), cl_id: None }
                }
            },
        }
    }

    /// Issues a token for `uid`, embedding the user's current token
    /// version, expiring `ttl` seconds after `now`. Unknown users get
    /// nothing.
    pub fn issue_token(&self, uid: u64, now: u64, ttl: u64) -> (r: Option<Token>)
        requires
            self.wf(),
            now + ttl <= u64::MAX,
        ensures
            r is Some <==> has_uid(self.users@, uid),
            r matches Some(t) ==> t.uid == uid && t.expires_at == now + ttl && t.version
                == self.users@[user_idx(self.users@, uid)].token_version,
    {
        match self.find_by_uid(uid) {
            Some(i) => {
                proof {
                    let k = user_idx(self.users@, uid);
                    assert(0 <= k < self.users@.len() && self.users@[k].uid == uid);
                    assert(k == i);
                }
                Some(
                    Token {
                        uid,
                        version: self.users[i].token_version,
                        expires_at: now + ttl,
                    },
                )
            },
            None => None,
        }
    }

    /// Validates bearer material against the expected subject at time
    /// `now`: the checks run in the order the classification lists, a
    /// token is accepted only strictly before its expiry instant, and a
    /// version behind the user's current one is rejected.
    pub fn validate_token(&self, material: &BearerMaterial, expected_uid: u64, now: u64) -> (r:
        AuthStatus)
        requires
            self.wf(),
        ensures
            r == spec_validate(self.users@, *material, expected_uid, now),
    {
        match material {
            BearerMaterial::MissingHeader => AuthStatus::Fail(BearerFailure::EmptyHeader),
            BearerMaterial::MissingCookie => AuthStatus::Fail(BearerFailure::EmptyCookie),
            BearerMaterial::Garbled => AuthStatus::Fail(BearerFailure::ParsingError),
            BearerMaterial::IrregularComponents => AuthStatus::Fail(BearerFailure::BadJwtComponent),
            BearerMaterial::Claims(t) => {
                if t.expires_at <= now {
                    AuthStatus::Fail(BearerFailure::ExpiredJwt)
                } else {
                    match self.find_by_uid(expected_uid) {
                        None => AuthStatus::Fail(BearerFailure::InvalidToken),
                        Some(i) => {
                            proof {
                                let k = user_idx(self.users@, expected_uid);
                                assert(0 <= k < self.users@.len() && self.users@[k].uid
                                    == expected_uid);
                                assert(k == i);
                            }
                            if t.uid != expected_uid || t.version != self.users[i].token_version {
                                AuthStatus::Fail(BearerFailure::InvalidToken)
                            } else {
                                AuthStatus::Success
                            }
                        },
                    }
                }
            },
        }
    }

    /// Bumps the user's token version, invalidating every token issued
    /// before the bump. Unknown users leave the store unchanged.
    pub fn bump_token_version(&mut self, uid: u64)
        requires
            old(self).wf(),
        ensures
            final(self).wf(),
            final(self).next_uid == old(self).next_uid,
            !has_uid(old(self).users@, uid) ==> *final(self) == *old(self),
            has_uid(old(self).users@, uid) ==> {
                let k = user_idx(old(self).users@, uid);
                let u = old(self).users@[k];
                &&& final(self).users@ == old(self).users@.update(
                    k,
                    (User {
                        token_version: if u.token_version < u64::MAX {
                            (u.token_version + 1) as u64
                        } else {
                            u.token_version
                        },
                        ..u
                    }),
                )
            },
    {
        match self.find_by_uid(uid) {
            None => {
            },
            Some(i) => {
                proof {
                    let k = user_idx(self.users@, uid);
                    assert(0 <= k < self.users@.len() && self.users@[k].uid == uid);
                    assert(k == i);
                }
                let mut tmp = User {
                    uid: 0,
                    username: String::new(),
                    created_at: 0,
                    token_version: 0,
                    pwd: String::new(),
                };
                self.users.set_and_swap(i, &mut tmp);
                if tmp.token_version < u64::MAX {
                    tmp.token_version = tmp.token_version + 1;
                }
                self.users.set_and_swap(i, &mut tmp);
                proof {
                    assert(self.users@ =~= old(self).users@.update(
                        i as int,
                        self.users@[i as int],
                    ));
                }
            },
        }
    }

    /// A borrowed snapshot of every registered user.
    pub fn list_users(&self, _q: ListUser) -> (r: &Vec<User>)
        ensures
            r@ == self.users@,
    {
        &self.users
    }
}

} // verus!
