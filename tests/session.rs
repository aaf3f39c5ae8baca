use rb::claims::{decode_payload, encode_payload, sign_claims, verify_token, Claims};
use rb::errors::RbError;
use rb::guards::{Admin, Bearer, Jwt, Outcome, User};

fn claims(admin: bool, exp: i64) -> Claims {
    Claims { id: 0x0102_0304, username: String::from("alice"), admin, exp }
}

#[test]
fn payload_has_canonical_layout() {
    let c = Claims { id: 1, username: String::from("ab"), admin: true, exp: 2 };
    let mut expected = vec![1u8];
    expected.extend_from_slice(&[0u8; 15]);
    expected.push(1);
    expected.push(2);
    expected.extend_from_slice(&[0u8; 7]);
    expected.extend_from_slice(b"ab");
    assert_eq!(encode_payload(&c), expected);
}

#[test]
fn payload_round_trips() {
    let c = Claims { id: u128::MAX, username: String::from("zoë"), admin: false, exp: -5 };
    assert_eq!(decode_payload(&encode_payload(&c)), Some(c));
}

#[test]
fn payload_rejects_malformed_bytes() {
    assert_eq!(decode_payload(&[0u8; 24]), None);
    let mut bad_flag = vec![0u8; 25];
    bad_flag[16] = 2;
    assert_eq!(decode_payload(&bad_flag), None);
    let mut bad_utf8 = vec![0u8; 25];
    bad_utf8.push(0xff);
    assert_eq!(decode_payload(&bad_utf8), None);
    assert_eq!(
        decode_payload(&[0u8; 25]),
        Some(Claims { id: 0, username: String::new(), admin: false, exp: 0 })
    );
}

#[test]
fn signed_token_verifies_under_same_key() {
    let c = claims(true, 1000);
    let token = sign_claims("secret", &c);
    assert_eq!(verify_token("secret", &token), Ok(c));
}

#[test]
fn token_under_other_key_is_unauthorized() {
    let token = sign_claims("secret", &claims(true, 1000));
    assert_eq!(verify_token("other secret", &token), Err(RbError::AuthUnauthorized));
}

#[test]
fn tampered_or_garbage_token_is_unauthorized() {
    let token = sign_claims("secret", &claims(false, 1000));
    let mut bytes = base64::decode(&token).unwrap();
    bytes[16] = 1;
    let forged = base64::encode(&bytes);
    assert_eq!(verify_token("secret", &forged), Err(RbError::AuthUnauthorized));
    assert_eq!(verify_token("secret", "not base64!"), Err(RbError::AuthUnauthorized));
    assert_eq!(verify_token("secret", "AAAA"), Err(RbError::AuthUnauthorized));
}

#[test]
fn bearer_absent_header_forwards() {
    assert!(matches!(Bearer::from_request(None), Outcome::Forward));
}

#[test]
fn bearer_wrong_scheme_or_truncated_fails() {
    assert!(matches!(
        Bearer::from_request(Some("Basic abc")),
        Outcome::Failure(RbError::AuthUnauthorized)
    ));
    assert!(matches!(
        Bearer::from_request(Some("Bearer ")),
        Outcome::Failure(RbError::AuthUnauthorized)
    ));
    assert!(matches!(
        Bearer::from_request(Some("Bearer")),
        Outcome::Failure(RbError::AuthUnauthorized)
    ));
}

#[test]
fn bearer_extracts_token() {
    match Bearer::from_request(Some("Bearer xyz")) {
        Outcome::Success(b) => assert_eq!(b.0, "xyz"),
        _ => panic!("expected a bearer token"),
    }
}

#[test]
fn jwt_guard_reads_signed_claims() {
    let c = claims(false, 1000);
    let header = format!("Bearer {}", sign_claims("secret", &c));
    match Jwt::from_request(Some(&header), "secret") {
        Outcome::Success(j) => assert_eq!(j.0, c),
        _ => panic!("expected claims"),
    }
    assert!(matches!(Jwt::from_request(None, "secret"), Outcome::Forward));
}

#[test]
fn user_guard_accepts_unexpired_token() {
    let c = claims(false, 1000);
    let header = format!("Bearer {}", sign_claims("secret", &c));
    match User::from_request(Some(&header), "secret", 1000) {
        Outcome::Success(u) => assert_eq!(u.0, c),
        _ => panic!("expected a user"),
    }
}

#[test]
fn expired_session_token_is_rejected() {
    let header = format!("Bearer {}", sign_claims("secret", &claims(true, 1000)));
    assert!(matches!(
        User::from_request(Some(&header), "secret", 1001),
        Outcome::Failure(RbError::AuthTokenExpired)
    ));
    assert!(matches!(
        Admin::from_request(Some(&header), "secret", 1001),
        Outcome::Failure(RbError::AuthTokenExpired)
    ));
}

#[test]
fn token_signed_with_other_secret_is_unauthorized() {
    for admin in [false, true] {
        for exp in [0, 1000, i64::MAX] {
            let header = format!("Bearer {}", sign_claims("attacker", &claims(admin, exp)));
            assert!(matches!(
                User::from_request(Some(&header), "secret", 10),
                Outcome::Failure(RbError::AuthUnauthorized)
            ));
        }
    }
}

#[test]
fn admin_guard_forwards_non_admins() {
    let user_header = format!("Bearer {}", sign_claims("secret", &claims(false, 1000)));
    assert!(matches!(Admin::from_request(Some(&user_header), "secret", 10), Outcome::Forward));
    let admin_header = format!("Bearer {}", sign_claims("secret", &claims(true, 1000)));
    match Admin::from_request(Some(&admin_header), "secret", 10) {
        Outcome::Success(a) => assert!(a.0.admin),
        _ => panic!("expected an admin"),
    }
}

#[test]
fn session_token_is_standard_base64() {
    // the session token is base64 of payload and tag: 25 + 1 + 32 bytes
    let token = sign_claims("k", &Claims { id: 0, username: String::from("a"), admin: false, exp: 0 });
    assert_eq!(token.len(), 80);
    assert!(token.starts_with(&format!("{}G", "A".repeat(33))));
}
