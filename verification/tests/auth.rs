use chathub::domain::{
    AuthStatus, BearerFailure, BearerMaterial, FailureReason, ListUser, LoginFailure,
    LoginMessage, LoginStatus, RefusedReason, Registration, RegistrationStatus,
};
use chathub::identity::IdentityStore;

fn register(store: &mut IdentityStore, name: &str, pass: &str) -> RegistrationStatus {
    store
        .register(Registration { username: name.to_owned(), password: pass.to_owned() })
        .status
}

#[test]
fn register_then_duplicate_collides() {
    let mut store = IdentityStore::new();
    assert!(matches!(register(&mut store, "alice", "pw123"), RegistrationStatus::CREATED));
    assert!(matches!(
        register(&mut store, "alice", "other"),
        RegistrationStatus::FAILED(FailureReason::COLLISION)
    ));
}

#[test]
fn register_empty_username_refused() {
    let mut store = IdentityStore::new();
    match register(&mut store, "", "pw") {
        RegistrationStatus::REFUSED(RefusedReason::EMPTY, field) => {
            assert_eq!(field, "username");
        }
        other => panic!("unexpected status: {:?}", other),
    }
}

#[test]
fn register_empty_password_refused() {
    let mut store = IdentityStore::new();
    match register(&mut store, "bob", "") {
        RegistrationStatus::REFUSED(RefusedReason::EMPTY, field) => {
            assert_eq!(field, "password");
        }
        other => panic!("unexpected status: {:?}", other),
    }
}

#[test]
fn register_malformed_username_refused() {
    let mut store = IdentityStore::new();
    match register(&mut store, "bad name", "pw") {
        RegistrationStatus::REFUSED(RefusedReason::BADFORMAT, field) => {
            assert_eq!(field, "username");
        }
        other => panic!("unexpected status: {:?}", other),
    }
}

#[test]
fn login_success_returns_user_id() {
    let mut store = IdentityStore::new();
    let res = store.register(Registration {
        username: "alice".to_owned(),
        password: "pw123".to_owned(),
    });
    assert!(matches!(res.status, RegistrationStatus::CREATED));
    let uid = res.cl_id.expect("created registration carries the identifier");
    let login = store.login(LoginMessage {
        username: "alice".to_owned(),
        password: "pw123".to_owned(),
    });
    assert_eq!(login.status, LoginStatus::Passed);
    assert_eq!(login.cl_id, Some(uid));
}

#[test]
fn failed_logins_are_indistinguishable() {
    let mut store = IdentityStore::new();
    assert!(matches!(register(&mut store, "alice", "pw123"), RegistrationStatus::CREATED));
    let wrong_pass = store.login(LoginMessage {
        username: "alice".to_owned(),
        password: "nope".to_owned(),
    });
    let wrong_user = store.login(LoginMessage {
        username: "mallory".to_owned(),
        password: "pw123".to_owned(),
    });
    assert_eq!(wrong_pass.status, LoginStatus::Failed(LoginFailure::UserFailure));
    assert_eq!(wrong_user.status, LoginStatus::Failed(LoginFailure::UserFailure));
    assert_eq!(wrong_pass.status, wrong_user.status);
    assert_eq!(wrong_pass.cl_id, None);
    assert_eq!(wrong_user.cl_id, None);
}

#[test]
fn token_round_trip_validates() {
    let mut store = IdentityStore::new();
    let res = store.register(Registration {
        username: "alice".to_owned(),
        password: "pw123".to_owned(),
    });
    let uid = res.cl_id.expect("created");
    let now = 1_000u64;
    let token = store.issue_token(uid, now, 3600).expect("known user gets a token");
    assert_eq!(token.uid, uid);
    assert_eq!(token.expires_at, now + 3600);
    let status = store.validate_token(&BearerMaterial::Claims(token), uid, now + 10);
    assert_eq!(status, AuthStatus::Success);
}

#[test]
fn token_validation_failures_are_classified() {
    let mut store = IdentityStore::new();
    let res = store.register(Registration {
        username: "alice".to_owned(),
        password: "pw123".to_owned(),
    });
    let uid = res.cl_id.expect("created");
    let now = 1_000u64;
    let token = store.issue_token(uid, now, 60).expect("known user gets a token");
    assert_eq!(
        store.validate_token(&BearerMaterial::MissingHeader, uid, now),
        AuthStatus::Fail(BearerFailure::EmptyHeader)
    );
    assert_eq!(
        store.validate_token(&BearerMaterial::MissingCookie, uid, now),
        AuthStatus::Fail(BearerFailure::EmptyCookie)
    );
    assert_eq!(
        store.validate_token(&BearerMaterial::Garbled, uid, now),
        AuthStatus::Fail(BearerFailure::ParsingError)
    );
    assert_eq!(
        store.validate_token(&BearerMaterial::IrregularComponents, uid, now),
        AuthStatus::Fail(BearerFailure::BadJwtComponent)
    );
    assert_eq!(
        store.validate_token(&BearerMaterial::Claims(token), uid, now + 61),
        AuthStatus::Fail(BearerFailure::ExpiredJwt)
    );
    assert_eq!(
        store.validate_token(&BearerMaterial::Claims(token), uid + 1, now),
        AuthStatus::Fail(BearerFailure::InvalidToken)
    );
}

#[test]
fn bump_invalidates_earlier_tokens() {
    let mut store = IdentityStore::new();
    let res = store.register(Registration {
        username: "alice".to_owned(),
        password: "pw123".to_owned(),
    });
    let uid = res.cl_id.expect("created");
    let now = 1_000u64;
    let token = store.issue_token(uid, now, 3600).expect("known user gets a token");
    assert_eq!(
        store.validate_token(&BearerMaterial::Claims(token), uid, now),
        AuthStatus::Success
    );
    store.bump_token_version(uid);
    assert_eq!(
        store.validate_token(&BearerMaterial::Claims(token), uid, now),
        AuthStatus::Fail(BearerFailure::InvalidToken)
    );
    let fresh = store.issue_token(uid, now, 3600).expect("still a known user");
    assert_eq!(
        store.validate_token(&BearerMaterial::Claims(fresh), uid, now),
        AuthStatus::Success
    );
}

#[test]
fn issue_token_for_unknown_user_gives_nothing() {
    let store = IdentityStore::new();
    assert!(store.issue_token(42, 0, 60).is_none());
}

#[test]
fn list_users_reflects_registrations() {
    let mut store = IdentityStore::new();
    assert!(matches!(register(&mut store, "alice", "pw"), RegistrationStatus::CREATED));
    assert!(matches!(register(&mut store, "bob", "pw"), RegistrationStatus::CREATED));
    let users = store.list_users(ListUser);
    assert_eq!(users.len(), 2);
    assert_eq!(users[0].username, "alice");
    assert_eq!(users[1].username, "bob");
    assert_ne!(users[0].uid, users[1].uid);
}

#[test]
fn stored_password_is_a_salted_hash() {
    let mut store = IdentityStore::new();
    assert!(matches!(register(&mut store, "alice", "pw123"), RegistrationStatus::CREATED));
    let users = store.list_users(ListUser);
    assert_ne!(users[0].pwd, "pw123");
    assert!(users[0].comp_pass("pw123"));
    assert!(!users[0].comp_pass("pw124"));
}

#[test]
fn token_expires_at_its_expiry_instant() {
    let mut store = IdentityStore::new();
    let res = store.register(Registration {
        username: "alice".to_owned(),
        password: "pw123".to_owned(),
    });
    let uid = res.cl_id.expect("created");
    let token = store.issue_token(uid, 1_000, 60).expect("known user gets a token");
    assert_eq!(
        store.validate_token(&BearerMaterial::Claims(token), uid, 1_059),
        AuthStatus::Success
    );
    assert_eq!(
        store.validate_token(&BearerMaterial::Claims(token), uid, 1_060),
        AuthStatus::Fail(BearerFailure::ExpiredJwt)
    );
}
