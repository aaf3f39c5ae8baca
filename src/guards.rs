//! The request guard chain: bearer extraction, signature check, expiry
//! check and role check. Each stage succeeds with a typed value, forwards
//! (the request is not for this route: try the next one), or fails.
use crate::claims::{claims_of_token, verify_token, Claims, ClaimsModel};
use crate::crypto::{base64_decoded, hmac_sha256_of, MAC_LEN};
use crate::errors::RbError;
use vstd::prelude::*;
use vstd::string::StringSliceAdditionalSpecFns;
use vstd::utf8::{
    decode_utf8, encode_utf8, encode_utf8_decode_utf8, encode_utf8_valid_utf8, is_char_boundary,
    length_of_first_scalar, pop_first_scalar, valid_first_scalar, valid_utf8,
};

verus! {

/// What a guard makes of a request.
#[derive(Debug, Clone, PartialEq, Eq)]
pub enum Outcome<T> {
    Success(T),
    Forward,
    Failure(RbError),
}

impl<T: View> View for Outcome<T> {
    type V = Outcome<T::V>;

    open spec fn view(&self) -> Outcome<T::V> {
        match self {
            Outcome::Success(t) => Outcome::Success(t@),
            Outcome::Forward => Outcome::Forward,
            Outcome::Failure(e) => Outcome::Failure(*e),
        }
    }
}

/// The bytes of `Bearer `, the scheme that session tokens travel under.
pub open spec fn bearer_scheme() -> Seq<u8> {
    seq![66u8, 101u8, 97u8, 114u8, 101u8, 114u8, 32u8]
}

/// Length of `Bearer ` in bytes.
pub const SCHEME_LEN: usize = 7;

/// Whether an `Authorization` header value is `Bearer ` followed by a
/// non-empty token.
pub open spec fn is_bearer_header(h: Seq<char>) -> bool {
    let b = encode_utf8(h);
    b.len() > SCHEME_LEN && b.subrange(0, SCHEME_LEN as int) == bearer_scheme()
}

/// In valid UTF-8, the byte after an ASCII byte that starts a character
/// starts one too.
proof fn lemma_boundary_after_ascii(b: Seq<u8>, i: int)
    requires
        valid_utf8(b),
        0 <= i < b.len(),
        is_char_boundary(b, i),
        b[i] < 0x80u8,
    ensures
        is_char_boundary(b, i + 1),
    decreases b.len(),
{
    let l = length_of_first_scalar(b);
    let p = pop_first_scalar(b);
    assert(b.len() > 0);
    assert(valid_first_scalar(b) && valid_utf8(p));
    assert(1 <= l <= b.len());
    assert(p.len() == b.len() - l);
    if i == 0 {
        assert(l == 1);
        assert(is_char_boundary(p, 0));
    } else {
        assert(is_char_boundary(p, i - l));
        assert(i - l >= 0);
        assert(p[i - l] == b[i]);
        lemma_boundary_after_ascii(p, i - l);
    }
}

/// The scheme of a bearer header ends on a character boundary.
proof fn lemma_scheme_ends_on_boundary(b: Seq<u8>)
    requires
        valid_utf8(b),
        b.len() > SCHEME_LEN,
        b.subrange(0, SCHEME_LEN as int) == bearer_scheme(),
    ensures
        is_char_boundary(b, SCHEME_LEN as int),
{
    assert forall|i: int| 0 <= i < SCHEME_LEN implies #[trigger] b[i] < 0x80u8 by {
        assert(b.subrange(0, SCHEME_LEN as int)[i] == b[i]);
    }
    assert(is_char_boundary(b, 0));
    lemma_boundary_after_ascii(b, 0);
    lemma_boundary_after_ascii(b, 1);
    lemma_boundary_after_ascii(b, 2);
    lemma_boundary_after_ascii(b, 3);
    lemma_boundary_after_ascii(b, 4);
    lemma_boundary_after_ascii(b, 5);
    lemma_boundary_after_ascii(b, 6);
}

/// The token of a bearer header: what follows `Bearer `.
pub open spec fn bearer_token(h: Seq<char>) -> Seq<char> {
    let b = encode_utf8(h);
    decode_utf8(b.subrange(SCHEME_LEN as int, b.len() as int))
}

pub open spec fn header_view(header: Option<&str>) -> Option<Seq<char>> {
    match header {
        Some(h) => Some(h@),
        None => None,
    }
}

/// First stage: no header forwards; a header that is not a bearer header
/// fails.
pub open spec fn bearer_outcome(header: Option<Seq<char>>) -> Outcome<Seq<char>> {
    match header {
        None => Outcome::Forward,
        Some(h) => if is_bearer_header(h) {
            Outcome::Success(bearer_token(h))
        } else {
            Outcome::Failure(RbError::AuthUnauthorized)
        },
    }
}

/// Second stage: the token must carry claims signed under `key`.
pub open spec fn jwt_outcome(key: Seq<u8>, header: Option<Seq<char>>) -> Outcome<ClaimsModel> {
    match bearer_outcome(header) {
        Outcome::Success(t) => match claims_of_token(key, t) {
            Some(c) => Outcome::Success(c),
            None => Outcome::Failure(RbError::AuthUnauthorized),
        },
        Outcome::Forward => Outcome::Forward,
        Outcome::Failure(e) => Outcome::Failure(e),
    }
}

/// Third stage: claims whose expiry lies before `now` fail.
pub open spec fn user_outcome(key: Seq<u8>, header: Option<Seq<char>>, now: i64) -> Outcome<
    ClaimsModel,
> {
    match jwt_outcome(key, header) {
        Outcome::Success(c) => if c.exp < now {
            Outcome::Failure(RbError::AuthTokenExpired)
        } else {
            Outcome::Success(c)
        },
        o => o,
    }
}

/// Fourth stage: claims without the admin role forward, so that a lower
/// ranked route can take the request.
pub open spec fn admin_outcome(key: Seq<u8>, header: Option<Seq<char>>, now: i64) -> Outcome<
    ClaimsModel,
> {
    match user_outcome(key, header, now) {
        Outcome::Success(c) => if c.admin {
            Outcome::Success(c)
        } else {
            Outcome::Forward
        },
        o => o,
    }
}

fn starts_with_scheme(b: &[u8]) -> (r: bool)
    ensures
        r == (b@.len() >= SCHEME_LEN && b@.subrange(0, SCHEME_LEN as int) == bearer_scheme()),
{
    if b.len() < SCHEME_LEN {
        return false;
    }
    let scheme: [u8; 7] = [66u8, 101u8, 97u8, 114u8, 101u8, 114u8, 32u8];
    assert(scheme@ == bearer_scheme());
    let mut i: usize = 0;
    while i < SCHEME_LEN
        invariant
            b@.len() >= SCHEME_LEN,
            scheme@ == bearer_scheme(),
            0 <= i <= SCHEME_LEN,
            forall|j: int| 0 <= j < i ==> b@[j] == scheme@[j],
        decreases SCHEME_LEN - i,
    {
        if b[i] != scheme[i] {
            assert(b@.subrange(0, SCHEME_LEN as int)[i as int] != bearer_scheme()[i as int]);
            return false;
        }
        i = i + 1;
    }
    assert(b@.subrange(0, SCHEME_LEN as int) =~= bearer_scheme());
    true
}

/// The token of an `Authorization: Bearer <token>` header.
pub struct Bearer<'a>(pub &'a str);

impl<'a> View for Bearer<'a> {
    type V = Seq<char>;

    open spec fn view(&self) -> Seq<char> {
        self.0@
    }
}

impl<'a> Bearer<'a> {
    /// Extracts the bearer token from the value of the `Authorization`
    /// header, if the request has one.
    pub fn from_request(header: Option<&'a str>) -> (r: Outcome<Bearer<'a>>)
        ensures
            r@ == bearer_outcome(header_view(header)),
    {
        // If the header isn't present, just forward to the next route
        let h = match header {
            None => return Outcome::Forward,
            Some(val) => val,
        };
        let bytes = h.as_bytes();
        if bytes.len() > SCHEME_LEN && starts_with_scheme(bytes) {
            proof {
                encode_utf8_valid_utf8(h@);
                lemma_scheme_ends_on_boundary(h.spec_bytes());
            }
            let (_, token) = h.split_at(SCHEME_LEN);
            proof {
                encode_utf8_decode_utf8(token@);
            }
            Outcome::Success(Bearer(token))
        } else {
            Outcome::Failure(RbError::AuthUnauthorized)
        }
    }
}

/// Claims whose signature has been checked.
pub struct Jwt(pub Claims);

impl View for Jwt {
    type V = ClaimsModel;

    open spec fn view(&self) -> ClaimsModel {
        self.0@
    }
}

impl Jwt {
    /// Checks the bearer token's signature under `key` and reads its claims.
    pub fn from_request(header: Option<&str>, key: &str) -> (r: Outcome<Jwt>)
        ensures
            r@ == jwt_outcome(key.spec_bytes(), header_view(header)),
    {
        let bearer = match Bearer::from_request(header) {
            Outcome::Success(b) => b,
            Outcome::Forward => return Outcome::Forward,
            Outcome::Failure(e) => return Outcome::Failure(e),
        };
        // Verify token using key
        match verify_token(key, bearer.0) {
            Ok(claims) => Outcome::Success(Jwt(claims)),
            Err(e) => Outcome::Failure(e),
        }
    }
}

/// Signed claims that have not expired.
pub struct User(pub Claims);

impl View for User {
    type V = ClaimsModel;

    open spec fn view(&self) -> ClaimsModel {
        self.0@
    }
}

impl User {
    /// Checks the session token and that its expiry is not before `now`.
    pub fn from_request(header: Option<&str>, key: &str, now: i64) -> (r: Outcome<User>)
        ensures
            r@ == user_outcome(key.spec_bytes(), header_view(header), now),
    {
        let claims = match Jwt::from_request(header, key) {
            Outcome::Success(j) => j.0,
            Outcome::Forward => return Outcome::Forward,
            Outcome::Failure(e) => return Outcome::Failure(e),
        };
        // Verify key hasn't yet expired
        if claims.exp < now {
            Outcome::Failure(RbError::AuthTokenExpired)
        } else {
            Outcome::Success(User(claims))
        }
    }
}

/// Signed, unexpired claims of an administrator.
pub struct Admin(pub Claims);

impl View for Admin {
    type V = ClaimsModel;

    open spec fn view(&self) -> ClaimsModel {
        self.0@
    }
}

impl Admin {
    /// Checks the session token, its expiry, and the admin role; a valid
    /// token without the role forwards.
    pub fn from_request(header: Option<&str>, key: &str, now: i64) -> (r: Outcome<Admin>)
        ensures
            r@ == admin_outcome(key.spec_bytes(), header_view(header), now),
    {
        let user = match User::from_request(header, key, now) {
            Outcome::Success(u) => u.0,
            Outcome::Forward => return Outcome::Forward,
            Outcome::Failure(e) => return Outcome::Failure(e),
        };
        if user.admin {
            Outcome::Success(Admin(user))
        } else {
            Outcome::Forward
        }
    }
}

/// A bearer token whose signature checks under the key, but whose expiry
/// lies before `now`, is rejected with `AuthTokenExpired` by the expiry
/// stage and by the role stage after it.
pub proof fn lemma_expired_session_rejected(key: Seq<u8>, header: Seq<char>, c: ClaimsModel, now: i64)
    requires
        is_bearer_header(header),
        claims_of_token(key, bearer_token(header)) == Some(c),
        c.exp < now,
    ensures
        user_outcome(key, Some(header), now) == Outcome::<ClaimsModel>::Failure(
            RbError::AuthTokenExpired,
        ),
        admin_outcome(key, Some(header), now) == Outcome::<ClaimsModel>::Failure(
            RbError::AuthTokenExpired,
        ),
{
}

/// A bearer token signed under one key is rejected with
/// `AuthUnauthorized` under any other key whose tags differ from the first
/// key's, whatever the claims and whatever the time. (Keys whose tags
/// coincide, such as two keys that differ only by trailing zero bytes, are
/// interchangeable for HMAC and are left out.)
pub proof fn lemma_other_key_rejected(
    signer: Seq<u8>,
    key: Seq<u8>,
    header: Seq<char>,
    c: ClaimsModel,
    now: i64,
)
    requires
        forall|p: Seq<u8>| #[trigger] hmac_sha256_of(signer, p) != hmac_sha256_of(key, p),
        is_bearer_header(header),
        claims_of_token(signer, bearer_token(header)) == Some(c),
    ensures
        jwt_outcome(key, Some(header)) == Outcome::<ClaimsModel>::Failure(RbError::AuthUnauthorized),
        user_outcome(key, Some(header), now) == Outcome::<ClaimsModel>::Failure(
            RbError::AuthUnauthorized,
        ),
        admin_outcome(key, Some(header), now) == Outcome::<ClaimsModel>::Failure(
            RbError::AuthUnauthorized,
        ),
{
    let b = base64_decoded(bearer_token(header))->Some_0;
    let p = b.subrange(0, b.len() - MAC_LEN);
    assert(hmac_sha256_of(signer, p) != hmac_sha256_of(key, p));
}

} // verus!
