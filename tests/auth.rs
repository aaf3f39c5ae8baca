use rb::auth::{
    check_refresh_token, check_user, create_admin_user, generate_jwt_token, hash_password,
    plan_redeem, prepare_token_pair, refresh_token, verify_user, RedeemStep,
};
use rb::claims::{verify_token, Claims};
use rb::config::RbJwtConf;
use rb::db::{NewRefreshToken, NewUser, RefreshToken, Store, User};
use rb::errors::RbError;

const NOW: i64 = 1_700_000_000;

fn conf() -> RbJwtConf {
    RbJwtConf::with_key(String::from("server secret"))
}

fn store_with(name: &str, password: &str) -> Store {
    let mut store = Store::new();
    let hash = hash_password(password).unwrap();
    store
        .create(&NewUser { username: String::from(name), password: hash, admin: false })
        .unwrap();
    store
}

#[test]
fn default_token_settings() {
    let c = conf();
    assert_eq!(c.session_token_expire, 600);
    assert_eq!(c.refresh_token_expire, 604800);
    assert_eq!(c.refresh_token_size, 64);
}

#[test]
fn hashed_password_verifies_and_other_does_not() {
    let hash = hash_password("correct horse").unwrap();
    assert_ne!(hash, "correct horse");
    assert!(hash.starts_with("$argon2"));
    let user = User { id: 1, username: String::from("bob"), password: hash, blocked: false, admin: false };
    assert!(check_user(Some(user.clone()), "correct horse").is_ok());
    assert_eq!(check_user(Some(user), "battery staple"), Err(RbError::AuthInvalidPassword));
}

#[test]
fn hashing_twice_gives_different_digests() {
    let a = hash_password("same").unwrap();
    let b = hash_password("same").unwrap();
    assert_ne!(a, b);
}

#[test]
fn malformed_hash_is_invalid_password() {
    let user = User {
        id: 1,
        username: String::from("bob"),
        password: String::from("not a hash"),
        blocked: false,
        admin: false,
    };
    assert_eq!(check_user(Some(user), "anything"), Err(RbError::AuthInvalidPassword));
}

#[test]
fn login_errors() {
    let mut store = store_with("bob", "pw");
    assert_eq!(verify_user(&store, "nobody", "pw"), Err(RbError::AuthUnknownUser));
    assert_eq!(verify_user(&store, "bob", "wrong"), Err(RbError::AuthInvalidPassword));
    let bob = verify_user(&store, "bob", "pw").unwrap();
    assert_eq!(bob.username, "bob");
    store.block(bob.id);
    assert_eq!(verify_user(&store, "bob", "pw"), Err(RbError::AuthBlockedUser));
}

#[test]
fn duplicate_username_is_refused() {
    let mut store = Store::new();
    let u = NewUser { username: String::from("x"), password: String::from("h"), admin: false };
    assert_eq!(store.create(&u), Ok(()));
    assert_eq!(store.create(&u), Err(RbError::UMDuplicateUser));
    assert_eq!(store.get(0, 10).len(), 1);
}

#[test]
fn store_pages_users() {
    let mut store = Store::new();
    for name in ["a", "b", "c"] {
        let u = NewUser { username: String::from(name), password: String::from("h"), admin: false };
        store.create(&u).unwrap();
    }
    let page = store.get(1, 1);
    assert_eq!(page.len(), 1);
    assert_eq!(page[0].username, "b");
    assert_eq!(store.get(2, 5).len(), 1);
    assert_eq!(store.get(7, 5).len(), 0);
    assert_eq!(store.find(page[0].id).unwrap().username, "b");
}

#[test]
fn stamping_a_token_happens_once() {
    let mut store = store_with("bob", "pw");
    let bob = store.find_by_username("bob").unwrap();
    let rec = NewRefreshToken { token: vec![1, 2, 3], user_id: bob.id, expires_at: NOW };
    assert_eq!(store.create_token(&rec), Ok(()));
    assert_eq!(
        store.create_token(&rec),
        Err(RbError::DbError("Couldn't insert refresh token."))
    );
    assert_eq!(store.update_last_used_at(&[1, 2, 3], NOW), Ok(()));
    assert_eq!(
        store.update_last_used_at(&[1, 2, 3], NOW + 1),
        Err(RbError::DbError("Couldn't update last_used_at."))
    );
    let (t, u) = store.find_with_user(&[1, 2, 3]).unwrap();
    assert_eq!(t.last_used_at, Some(NOW));
    assert_eq!(u.id, bob.id);
    assert!(store.find_with_user(&[9]).is_none());
}

#[test]
fn issued_pair_carries_claims_and_stored_refresh_token() {
    let mut store = store_with("alice", "pw");
    let alice = store.find_by_username("alice").unwrap();
    let pair = generate_jwt_token(&mut store, &conf(), &alice, NOW).unwrap();
    let claims = verify_token("server secret", &pair.token).unwrap();
    assert_eq!(
        claims,
        Claims { id: alice.id, username: String::from("alice"), admin: false, exp: NOW + 600 }
    );
    let raw = base64::decode(&pair.refresh_token).unwrap();
    assert_eq!(raw.len(), 64);
    let (rec, owner) = store.find_with_user(&raw).unwrap();
    assert_eq!(rec.expires_at, NOW + 604800);
    assert_eq!(rec.last_used_at, None);
    assert_eq!(owner.id, alice.id);
}

#[test]
fn expiry_out_of_range_is_refused() {
    let user = User { id: 1, username: String::from("a"), password: String::new(), blocked: false, admin: false };
    let r = prepare_token_pair(&conf(), &user, i64::MAX);
    assert_eq!(r.err(), Some(RbError::Custom("Token expiry out of range.")));
}

#[test]
fn refresh_once_then_replay_blocks() {
    let mut store = store_with("carol", "pw");
    let carol = store.find_by_username("carol").unwrap();
    let first = generate_jwt_token(&mut store, &conf(), &carol, NOW).unwrap();
    let second = refresh_token(&mut store, &conf(), &first.refresh_token, NOW + 10).unwrap();
    assert_ne!(second.refresh_token, first.refresh_token);
    assert_eq!(
        refresh_token(&mut store, &conf(), &first.refresh_token, NOW + 20).err(),
        Some(RbError::AuthDuplicateRefreshToken)
    );
    assert!(store.find_by_username("carol").unwrap().blocked);
}

#[test]
fn expired_refresh_token_fails_without_blocking() {
    let mut store = store_with("dave", "pw");
    let dave = store.find_by_username("dave").unwrap();
    let pair = generate_jwt_token(&mut store, &conf(), &dave, NOW).unwrap();
    assert_eq!(
        refresh_token(&mut store, &conf(), &pair.refresh_token, NOW + 604801).err(),
        Some(RbError::AuthTokenExpired)
    );
    assert!(!store.find_by_username("dave").unwrap().blocked);
    // still unused, so still good before its expiry
    assert!(refresh_token(&mut store, &conf(), &pair.refresh_token, NOW + 604800).is_ok());
}

#[test]
fn malformed_and_unknown_refresh_tokens() {
    let mut store = store_with("erin", "pw");
    assert_eq!(
        refresh_token(&mut store, &conf(), "%%% not base64", NOW).err(),
        Some(RbError::AuthMalformedRefreshToken)
    );
    assert_eq!(
        refresh_token(&mut store, &conf(), &base64::encode([7u8; 64]), NOW).err(),
        Some(RbError::AuthInvalidRefreshToken)
    );
}

#[test]
fn refresh_check_decisions() {
    let user = User { id: 5, username: String::from("u"), password: String::new(), blocked: false, admin: false };
    let live = RefreshToken { token: vec![1], user_id: 5, expires_at: 100, last_used_at: None };
    let used = RefreshToken { last_used_at: Some(50), ..live.clone() };
    assert_eq!(check_refresh_token(None, 10), Err(RbError::AuthInvalidRefreshToken));
    assert_eq!(
        check_refresh_token(Some((used, user.clone())), 10),
        Err(RbError::AuthDuplicateRefreshToken)
    );
    assert_eq!(
        check_refresh_token(Some((live.clone(), user.clone())), 101),
        Err(RbError::AuthTokenExpired)
    );
    assert_eq!(check_refresh_token(Some((live.clone(), user.clone())), 100), Ok((live, user)));
}

#[test]
fn alice_login_refresh_replay_scenario() {
    let mut store = store_with("alice", "correct password");
    let alice = verify_user(&store, "alice", "correct password").unwrap();
    let first = generate_jwt_token(&mut store, &conf(), &alice, NOW).unwrap();
    let second = refresh_token(&mut store, &conf(), &first.refresh_token, NOW + 1).unwrap();
    assert_ne!(second.refresh_token, first.refresh_token);
    assert!(verify_token("server secret", &second.token).is_ok());
    assert_eq!(
        refresh_token(&mut store, &conf(), &first.refresh_token, NOW + 2).err(),
        Some(RbError::AuthDuplicateRefreshToken)
    );
    assert_eq!(
        verify_user(&store, "alice", "correct password").err(),
        Some(RbError::AuthBlockedUser)
    );
}

#[test]
fn admin_bootstrap_twice_leaves_one_admin() {
    let mut store = Store::new();
    assert_eq!(create_admin_user(&mut store, "admin", "password"), Ok(true));
    assert_eq!(create_admin_user(&mut store, "admin", "password"), Ok(true));
    let all = store.get(0, 100);
    let admins: Vec<&User> = all.iter().filter(|u| u.username == "admin").collect();
    assert_eq!(admins.len(), 1);
    assert!(admins[0].admin);
    assert!(verify_user(&store, "admin", "password").is_ok());
}

#[test]
fn admin_bootstrap_promotes_existing_account() {
    let mut store = store_with("root", "old");
    assert_eq!(create_admin_user(&mut store, "root", "new"), Ok(true));
    let root = verify_user(&store, "root", "new").unwrap();
    assert!(root.admin);
    assert_eq!(verify_user(&store, "root", "old"), Err(RbError::AuthInvalidPassword));
    assert_eq!(store.get(0, 10).len(), 1);
}

#[test]
fn redeem_plans_follow_the_token_state() {
    let user = User { id: 9, username: String::from("u"), password: String::new(), blocked: false, admin: true };
    let live = RefreshToken { token: vec![4, 5], user_id: 9, expires_at: NOW + 5, last_used_at: None };
    let used = RefreshToken { last_used_at: Some(NOW), ..live.clone() };
    assert!(matches!(
        plan_redeem(&conf(), None, NOW),
        RedeemStep::Reject(RbError::AuthInvalidRefreshToken)
    ));
    assert!(matches!(plan_redeem(&conf(), Some((used, user.clone())), NOW), RedeemStep::BlockOwner(9)));
    assert!(matches!(
        plan_redeem(&conf(), Some((live.clone(), user.clone())), NOW + 6),
        RedeemStep::Reject(RbError::AuthTokenExpired)
    ));
    assert!(matches!(
        plan_redeem(&conf(), Some((live.clone(), user.clone())), i64::MAX),
        RedeemStep::Reject(RbError::AuthTokenExpired)
    ));
    match plan_redeem(&conf(), Some((live, user)), NOW) {
        RedeemStep::Rotate { stamp, at, record, response } => {
            assert_eq!(stamp, vec![4, 5]);
            assert_eq!(at, NOW);
            assert_eq!(record.user_id, 9);
            assert_eq!(record.expires_at, NOW + 604800);
            assert_eq!(base64::decode(&response.refresh_token).unwrap(), record.token);
            let claims = verify_token("server secret", &response.token).unwrap();
            assert!(claims.admin);
            assert_eq!(claims.exp, NOW + 600);
        },
        _ => panic!("expected a rotation"),
    }
}

#[test]
fn expiry_overflow_is_refused_on_redeem() {
    let user = User { id: 9, username: String::from("u"), password: String::new(), blocked: false, admin: false };
    let live = RefreshToken { token: vec![4], user_id: 9, expires_at: i64::MAX, last_used_at: None };
    assert!(matches!(
        plan_redeem(&conf(), Some((live, user)), i64::MAX - 10),
        RedeemStep::Reject(RbError::Custom("Token expiry out of range."))
    ));
}
