//! Credential verification, token-pair issuance, refresh-token redemption
//! and the administrator bootstrap.
use crate::claims::{claims_of_token, session_token_of, sign_claims, Claims, ClaimsModel};
use crate::config::RbJwtConf;
use crate::crypto::{
    argon2_accepts, argon2_encoded_of, argon2_hash, argon2_verify, base64_decode, base64_decoded,
    base64_encode, base64_of, random_bytes,
};
use crate::db::{
    lemma_upsert_keeps_wf, NewRefreshToken, NewUser, RefreshToken, Store, StoreModel, TokenModel,
    User, UserModel,
};
use crate::errors::{RbError, RbResult};
use vstd::prelude::*;
use vstd::string::StringSliceAdditionalSpecFns;
use vstd::utf8::encode_utf8;

verus! {

/// Bytes of the random salt of each password hash.
pub const SALT_LEN: usize = 64;

/// A session token and the refresh token that goes with it.
#[derive(Debug, Clone, PartialEq, Eq)]
pub struct JWTResponse {
    pub token: String,
    /// Base64 text of the refresh token's bytes.
    pub refresh_token: String,
}

pub open spec fn user_view(found: Option<User>) -> Option<UserModel> {
    match found {
        Some(u) => Some(u@),
        None => None,
    }
}

/// What a login with `password` makes of the account found for the
/// username: unknown, blocked, wrong password, or the account.
pub open spec fn login_outcome(
    found: Option<UserModel>,
    password: Seq<char>,
) -> Result<UserModel, RbError> {
    match found {
        None => Err(RbError::AuthUnknownUser),
        Some(u) => if u.blocked {
            Err(RbError::AuthBlockedUser)
        } else if argon2_accepts(u.password, password) {
            Ok(u)
        } else {
            Err(RbError::AuthInvalidPassword)
        },
    }
}

/// Checks a password against the account found for a username. A blocked
/// account never passes, whatever the password.
pub fn check_user(found: Option<User>, password: &str) -> (r: RbResult<User>)
    ensures
        match r {
            Ok(u) => login_outcome(user_view(found), password@) == Ok::<UserModel, RbError>(u@),
            Err(e) => login_outcome(user_view(found), password@) == Err::<UserModel, RbError>(e),
        },
{
    let user = match found {
        Some(u) => u,
        None => return Err(RbError::AuthUnknownUser),
    };
    // Check if a user is blocked
    if user.blocked {
        return Err(RbError::AuthBlockedUser);
    }
    if argon2_verify(user.password.as_str(), password) {
        Ok(user)
    } else {
        Err(RbError::AuthInvalidPassword)
    }
}

/// Looks the username up and checks the password against it.
pub fn verify_user(store: &Store, username: &str, password: &str) -> (r: RbResult<User>)
    requires
        store.wf(),
    ensures
        match r {
            Ok(u) => login_outcome(store@.user_by_name(username@), password@) == Ok::<
                UserModel,
                RbError,
            >(u@),
            Err(e) => login_outcome(store@.user_by_name(username@), password@) == Err::<
                UserModel,
                RbError,
            >(e),
        },
{
    check_user(store.find_by_username(username), password)
}

/// Hashes a password with Argon2 under a fresh random salt of `SALT_LEN`
/// bytes. The result verifies against the same password. It fails only on
/// a password longer than Argon2 takes (`u32::MAX` bytes).
pub fn hash_password(password: &str) -> (r: RbResult<String>)
    ensures
        r is Ok <==> password.spec_bytes().len() <= u32::MAX,
        match r {
            Ok(h) => argon2_accepts(h@, password@) && exists|salt: Seq<u8>|
                salt.len() == SALT_LEN && h@ == #[trigger] argon2_encoded_of(password@, salt),
            Err(e) => e == RbError::Custom("Couldn't hash password."),
        },
{
    // Generate a random salt
    let salt = random_bytes(SALT_LEN);
    match argon2_hash(password, salt.as_slice()) {
        Some(h) => {
            assert(h@ == argon2_encoded_of(password@, salt@));
            Ok(h)
        },
        None => Err(RbError::Custom("Couldn't hash password.")),
    }
}

/// The store after an administrator bootstrap with this username and
/// password: the account holds a hash that verifies against the password
/// and has the admin role, whether it was created or updated.
pub open spec fn admin_bootstrapped(
    before: StoreModel,
    after: StoreModel,
    username: Seq<char>,
    password: Seq<char>,
) -> bool {
    exists|h: Seq<char>|
        argon2_accepts(h, password) && (before.has_user_named(username) || before.next_id
            < u128::MAX) && after == #[trigger] before.with_user_upserted(username, h, true)
}

/// Creates the administrator account, or updates its password and role
/// where the username exists. Safe to run on every start. It fails only on
/// a password too long to hash, or where a new account is due and the ids
/// are used up.
pub fn create_admin_user(store: &mut Store, username: &str, password: &str) -> (r: RbResult<bool>)
    requires
        old(store).wf(),
    ensures
        final(store).wf(),
        r is Ok <==> (password.spec_bytes().len() <= u32::MAX && (old(store)@.has_user_named(
            username@,
        ) || old(store)@.next_id < u128::MAX)),
        match r {
            Ok(b) => b && admin_bootstrapped(old(store)@, final(store)@, username@, password@),
            Err(e) => final(store)@ == old(store)@ && ((e == RbError::Custom(
                "Couldn't hash password.",
            ) && password.spec_bytes().len() > u32::MAX) || (e == RbError::Custom(
                "Couldn't create admin.",
            ) && !old(store)@.has_user_named(username@) && old(store)@.next_id == u128::MAX)),
        },
{
    let pass_hashed = hash_password(password)?;
    let new_user = NewUser { username: username.to_owned(), password: pass_hashed, admin: true };
    match store.upsert(&new_user) {
        Ok(()) => Ok(true),
        Err(_) => Err(RbError::Custom("Couldn't create admin.")),
    }
}

/// The claims a session token issued to `u` carries.
pub open spec fn claims_for(u: UserModel, exp: i64) -> ClaimsModel {
    ClaimsModel { id: u.id, username: u.username, admin: u.admin, exp }
}

/// The bytes of the server secret.
pub open spec fn key_bytes(conf: RbJwtConf) -> Seq<u8> {
    encode_utf8(conf.key@)
}

/// Whether `now + d` is a timestamp.
pub open spec fn fits(now: i64, d: i64) -> bool {
    i64::MIN <= now + d <= i64::MAX
}

/// Whether both lifetimes, counted from `now`, give timestamps.
pub open spec fn expiries_fit(conf: RbJwtConf, now: i64) -> bool {
    fits(now, conf.session_token_expire) && fits(now, conf.refresh_token_expire)
}

/// The failure of a lifetime that takes an expiry out of range.
pub open spec fn expiry_failure() -> RbError {
    RbError::Custom("Token expiry out of range.")
}

/// The failure of storing a new refresh token whose bytes are taken.
pub open spec fn insert_failure() -> RbError {
    RbError::DbError("Couldn't insert refresh token.")
}

/// Why issuing a pair at `now` against the store `before` may fail: an
/// expiry out of range, or fresh random bytes that equal a stored token of
/// the configured size.
pub open spec fn issue_failure(conf: RbJwtConf, before: StoreModel, now: i64, e: RbError) -> bool {
    (e == expiry_failure() && !expiries_fit(conf, now)) || (e == insert_failure() && expiries_fit(
        conf,
        now,
    ) && before.holds_token_of_len(conf.refresh_token_size as nat))
}

/// `resp` and `rec` are a pair for `u` at `now`: the session token carries
/// `u`'s claims with an expiry `session_token_expire` seconds after `now`,
/// and the refresh token is the base64 text of `rec`, a token of the
/// configured size owned by `u` that expires `refresh_token_expire` seconds
/// after `now`.
pub open spec fn pair_prepared(
    conf: RbJwtConf,
    u: UserModel,
    now: i64,
    resp: JWTResponse,
    rec: NewRefreshToken,
) -> bool {
    &&& expiries_fit(conf, now)
    &&& resp.token@ == session_token_of(
        key_bytes(conf),
        claims_for(u, (now + conf.session_token_expire) as i64),
    )
    &&& claims_of_token(key_bytes(conf), resp.token@) == Some(
        claims_for(u, (now + conf.session_token_expire) as i64),
    )
    &&& rec.token@.len() == conf.refresh_token_size
    &&& rec.user_id == u.id
    &&& rec.expires_at == now + conf.refresh_token_expire
    &&& resp.refresh_token@ == base64_of(rec.token@)
    &&& base64_decoded(resp.refresh_token@) == Some(rec.token@)
}

/// `token` is a session token for `u` that expires `session_token_expire`
/// seconds after `now`, and `refresh` is the base64 text of a fresh random
/// token of the configured size, owned by `u`, that `after` holds as the
/// one new record beside `before`, unused and expiring
/// `refresh_token_expire` seconds after `now`.
pub open spec fn pair_issued(
    conf: RbJwtConf,
    u: UserModel,
    now: i64,
    token: Seq<char>,
    refresh: Seq<char>,
    before: StoreModel,
    after: StoreModel,
) -> bool {
    &&& expiries_fit(conf, now)
    &&& token == session_token_of(
        key_bytes(conf),
        claims_for(u, (now + conf.session_token_expire) as i64),
    )
    &&& claims_of_token(key_bytes(conf), token) == Some(
        claims_for(u, (now + conf.session_token_expire) as i64),
    )
    &&& refresh == base64_of(base64_decoded(refresh)->Some_0)
    &&& base64_decoded(refresh) matches Some(t) && t.len() == conf.refresh_token_size
        && before.token_by_bytes(t) is None && after == before.with_token(
        t,
        u.id,
        (now + conf.refresh_token_expire) as i64,
    )
}

/// Builds the session token for `user` and a fresh refresh token, without
/// storing anything. Fails exactly where a lifetime takes an expiry out of
/// range.
pub fn prepare_token_pair(
    jwt: &RbJwtConf,
    user: &User,
    now: i64,
) -> (r: RbResult<(JWTResponse, NewRefreshToken)>)
    ensures
        r is Ok <==> expiries_fit(*jwt, now),
        match r {
            Ok((resp, rec)) => pair_prepared(*jwt, user@, now, resp, rec),
            Err(e) => e == expiry_failure(),
        },
{
    let exp = match now.checked_add(jwt.session_token_expire) {
        Some(t) => t,
        None => return Err(RbError::Custom("Token expiry out of range.")),
    };
    let refresh_expire = match now.checked_add(jwt.refresh_token_expire) {
        Some(t) => t,
        None => return Err(RbError::Custom("Token expiry out of range.")),
    };
    // Create the claims
    let claims = Claims { id: user.id, username: user.username.clone(), admin: user.admin, exp };
    // Sign the claims into a new token
    let token = sign_claims(jwt.key.as_str(), &claims);
    // Generate a random refresh token
    let refresh = random_bytes(jwt.refresh_token_size);
    let refresh_token = base64_encode(refresh.as_slice());
    Ok((
        JWTResponse { token, refresh_token },
        NewRefreshToken { token: refresh, user_id: user.id, expires_at: refresh_expire },
    ))
}

/// Issues a token pair to `user` and stores the refresh token. No pair is
/// returned unless its refresh token was stored. It fails where an expiry
/// is out of range, and otherwise only where the fresh random bytes are
/// already taken.
pub fn generate_jwt_token(
    store: &mut Store,
    jwt: &RbJwtConf,
    user: &User,
    now: i64,
) -> (r: RbResult<JWTResponse>)
    requires
        old(store).wf(),
    ensures
        final(store).wf(),
        !expiries_fit(*jwt, now) ==> r == Err::<JWTResponse, RbError>(expiry_failure()),
        match r {
            Ok(resp) => pair_issued(
                *jwt,
                user@,
                now,
                resp.token@,
                resp.refresh_token@,
                old(store)@,
                final(store)@,
            ),
            Err(e) => final(store)@ == old(store)@ && issue_failure(*jwt, old(store)@, now, e),
        },
{
    let (resp, rec) = prepare_token_pair(jwt, user, now)?;
    // Store refresh token in database
    let stored = store.create_token(&rec);
    if stored.is_err() {
        proof {
            let m = old(store)@;
            let k = choose|k: int| 0 <= k < m.tokens.len() && #[trigger] m.tokens[k].token == rec.token@;
            assert(m.tokens[k].token.len() == jwt.refresh_token_size as nat);
        }
        return Err(RbError::DbError("Couldn't insert refresh token."));
    }
    Ok(resp)
}

/// What redeeming a refresh token, found with its owner (or not), decides
/// at `now`: unknown, replayed, expired, or good for rotation.
pub open spec fn refresh_check(found: Option<(TokenModel, UserModel)>, now: i64) -> Result<
    (TokenModel, UserModel),
    RbError,
> {
    match found {
        None => Err(RbError::AuthInvalidRefreshToken),
        Some((t, u)) => if t.last_used_at is Some {
            Err(RbError::AuthDuplicateRefreshToken)
        } else if t.expires_at < now {
            Err(RbError::AuthTokenExpired)
        } else {
            Ok((t, u))
        },
    }
}

pub open spec fn found_view(found: Option<(RefreshToken, User)>) -> Option<(TokenModel, UserModel)> {
    match found {
        Some((t, u)) => Some((t@, u@)),
        None => None,
    }
}

/// Decides on a refresh token found with its owner. On
/// `AuthDuplicateRefreshToken` the caller blocks the owner: a token that was
/// redeemed before is being replayed.
pub fn check_refresh_token(found: Option<(RefreshToken, User)>, now: i64) -> (r: RbResult<
    (RefreshToken, User),
>)
    ensures
        match r {
            Ok((t, u)) => refresh_check(found_view(found), now) == Ok::<
                (TokenModel, UserModel),
                RbError,
            >((t@, u@)),
            Err(e) => refresh_check(found_view(found), now) == Err::<
                (TokenModel, UserModel),
                RbError,
            >(e),
        },
{
    let (entry, user) = match found {
        Some(p) => p,
        None => return Err(RbError::AuthInvalidRefreshToken),
    };
    // If we see that the token has already been used before, the user is
    // to be blocked.
    if entry.last_used_at.is_some() {
        return Err(RbError::AuthDuplicateRefreshToken);
    }
    // Now we check if the token has already expired
    if entry.expires_at < now {
        return Err(RbError::AuthTokenExpired);
    }
    Ok((entry, user))
}

/// What the store is to do about a refresh token that was looked up.
pub enum RedeemStep {
    /// Fail with this error and leave the store as it is.
    Reject(RbError),
    /// A replay: block the account with this id, then fail with
    /// `AuthDuplicateRefreshToken` whatever becomes of the block.
    BlockOwner(u128),
    /// Stamp the token with bytes `stamp` as used at `at` (only if it is
    /// still unused) and store `record`, both or neither; then answer
    /// `response`. Where either write fails, fail and answer nothing.
    Rotate { stamp: Vec<u8>, at: i64, record: NewRefreshToken, response: JWTResponse },
}

/// The step that redeeming the token found (or not) at `now` calls for.
pub open spec fn step_planned(
    conf: RbJwtConf,
    found: Option<(TokenModel, UserModel)>,
    now: i64,
    step: RedeemStep,
) -> bool {
    match refresh_check(found, now) {
        Err(e) => if e == RbError::AuthDuplicateRefreshToken {
            step == RedeemStep::BlockOwner(found->Some_0.0.user_id)
        } else {
            step == RedeemStep::Reject(e)
        },
        Ok((t, u)) => if !expiries_fit(conf, now) {
            step == RedeemStep::Reject(expiry_failure())
        } else {
            step matches RedeemStep::Rotate { stamp, at, record, response } && stamp@ == t.token
                && at == now && pair_prepared(conf, u, now, response, record)
        },
    }
}

/// Decides what to do about a refresh token found with its owner (or not)
/// at `now`, preparing the successor pair where the token is live.
pub fn plan_redeem(jwt: &RbJwtConf, found: Option<(RefreshToken, User)>, now: i64) -> (r: RedeemStep)
    ensures
        step_planned(*jwt, found_view(found), now, r),
{
    let owner: Option<u128> = match &found {
        Some((t, _)) => Some(t.user_id),
        None => None,
    };
    let (entry, user) = match check_refresh_token(found, now) {
        Ok(p) => p,
        Err(RbError::AuthDuplicateRefreshToken) => {
            return match owner {
                Some(id) => RedeemStep::BlockOwner(id),
                None => RedeemStep::Reject(RbError::AuthDuplicateRefreshToken),
            };
        },
        Err(e) => return RedeemStep::Reject(e),
    };
    match prepare_token_pair(jwt, &user, now) {
        Ok((response, record)) => RedeemStep::Rotate {
            stamp: entry.token,
            at: now,
            record,
            response,
        },
        Err(e) => RedeemStep::Reject(e),
    }
}

/// What redeeming the refresh token text `raw` at `now` does to the store
/// `before`, giving `after` and the session and refresh token texts, or an
/// error.
pub open spec fn redeem_effect(
    conf: RbJwtConf,
    before: StoreModel,
    raw: Seq<char>,
    now: i64,
    after: StoreModel,
    r: Result<(Seq<char>, Seq<char>), RbError>,
) -> bool {
    match base64_decoded(raw) {
        None => r == Err::<(Seq<char>, Seq<char>), RbError>(RbError::AuthMalformedRefreshToken)
            && after == before,
        Some(b) => match refresh_check(before.token_with_user(b), now) {
            Err(e) => r == Err::<(Seq<char>, Seq<char>), RbError>(e) && if e
                == RbError::AuthDuplicateRefreshToken {
                after == before.with_user_blocked(before.token_with_user(b)->Some_0.0.user_id)
            } else {
                after == before
            },
            Ok((t, u)) => match r {
                Ok((token, refresh)) => pair_issued(
                    conf,
                    u,
                    now,
                    token,
                    refresh,
                    before.with_token_stamped(b, now),
                    after,
                ),
                Err(e) => after == before && issue_failure(conf, before, now, e),
            },
        },
    }
}

pub open spec fn response_view(r: RbResult<JWTResponse>) -> Result<(Seq<char>, Seq<char>), RbError> {
    match r {
        Ok(p) => Ok((p.token@, p.refresh_token@)),
        Err(e) => Err(e),
    }
}

/// The bytes of a refresh token from its transport text;
/// `AuthMalformedRefreshToken` where the text is not base64.
pub fn decode_refresh_token(raw: &str) -> (r: RbResult<Vec<u8>>)
    ensures
        match r {
            Ok(b) => base64_decoded(raw@) == Some(b@),
            Err(e) => base64_decoded(raw@) is None && e == RbError::AuthMalformedRefreshToken,
        },
{
    match base64_decode(raw) {
        Some(b) => Ok(b),
        None => Err(RbError::AuthMalformedRefreshToken),
    }
}

/// Redeems a refresh token: a live one is stamped as used and replaced by a
/// new pair; a replayed one blocks its owner; an expired one only fails.
pub fn refresh_token(
    store: &mut Store,
    jwt: &RbJwtConf,
    raw: &str,
    now: i64,
) -> (r: RbResult<JWTResponse>)
    requires
        old(store).wf(),
    ensures
        final(store).wf(),
        redeem_effect(*jwt, old(store)@, raw@, now, final(store)@, response_view(r)),
{
    let token_bytes = decode_refresh_token(raw)?;
    // First, we request the token from the database to see if it's really a valid token
    let found = store.find_with_user(token_bytes.as_slice());
    let ghost before = store@;
    match plan_redeem(jwt, found, now) {
        RedeemStep::Reject(e) => Err(e),
        RedeemStep::BlockOwner(id) => {
            // The redemption fails whatever becomes of the block.
            store.block(id);
            Err(RbError::AuthDuplicateRefreshToken)
        },
        RedeemStep::Rotate { stamp, at, record, response } => {
            // The successor must be storable before the old token is spent.
            if store.contains_token(record.token.as_slice()) {
                proof {
                    let k = choose|k: int|
                        0 <= k < before.tokens.len() && #[trigger] before.tokens[k].token
                            == record.token@;
                    assert(before.tokens[k].token.len() == jwt.refresh_token_size as nat);
                }
                return Err(RbError::DbError("Couldn't insert refresh token."));
            }
            proof {
                let k = choose|k: int|
                    0 <= k < before.tokens.len() && #[trigger] before.tokens[k].token
                        == token_bytes@;
                assert(stamp@ == token_bytes@);
            }
            store.update_last_used_at(stamp.as_slice(), at)?;
            proof {
                let stamped = before.with_token_stamped(token_bytes@, now);
                assert forall|i: int| 0 <= i < stamped.tokens.len() implies #[trigger] stamped.tokens[i].token
                    != record.token@ by {
                    assert(before.tokens[i].token == stamped.tokens[i].token);
                }
            }
            store.create_token(&record)?;
            Ok(response)
        },
    }
}

/// A password whose Argon2 hash an unblocked account holds logs in to
/// that account.
pub proof fn lemma_hashed_password_logs_in(u: UserModel, password: Seq<char>)
    requires
        argon2_accepts(u.password, password),
        !u.blocked,
    ensures
        login_outcome(Some(u), password) == Ok::<UserModel, RbError>(u),
{
}

/// Redeeming a live refresh token either yields a new pair, whose refresh
/// token differs from the one redeemed and which the store now holds unused
/// beside the stamped old one, or fails in issuance and changes nothing.
pub proof fn lemma_live_token_rotates(
    conf: RbJwtConf,
    before: StoreModel,
    raw: Seq<char>,
    now: i64,
    after: StoreModel,
    r: Result<(Seq<char>, Seq<char>), RbError>,
)
    requires
        base64_decoded(raw) matches Some(b) && before.token_with_user(b) matches Some((t, u))
            && t.last_used_at is None && now <= t.expires_at,
        redeem_effect(conf, before, raw, now, after, r),
    ensures
        match r {
            Ok((token, refresh)) => refresh != raw && pair_issued(
                conf,
                before.token_with_user(base64_decoded(raw)->Some_0)->Some_0.1,
                now,
                token,
                refresh,
                before.with_token_stamped(base64_decoded(raw)->Some_0, now),
                after,
            ),
            Err(e) => issue_failure(conf, before, now, e) && after == before,
        },
{
    let b = base64_decoded(raw)->Some_0;
    let t = before.token_with_user(b)->Some_0.0;
    if let Ok((token, refresh)) = r {
        let stamped = before.with_token_stamped(b, now);
        let i = choose|i: int| 0 <= i < before.tokens.len() && #[trigger] before.tokens[i].token == b;
        assert(stamped.tokens[i].token == b);
        assert(stamped.token_by_bytes(b) is Some);
    }
}

/// A refresh token that expired unused fails with `AuthTokenExpired` and
/// leaves the store, and so its owner's account, as it was.
pub proof fn lemma_expired_token_does_not_block(
    conf: RbJwtConf,
    before: StoreModel,
    raw: Seq<char>,
    now: i64,
    after: StoreModel,
    r: Result<(Seq<char>, Seq<char>), RbError>,
)
    requires
        base64_decoded(raw) matches Some(b) && before.token_with_user(b) matches Some((t, u))
            && t.last_used_at is None && t.expires_at < now,
        redeem_effect(conf, before, raw, now, after, r),
    ensures
        r == Err::<(Seq<char>, Seq<char>), RbError>(RbError::AuthTokenExpired),
        after == before,
{
}

/// Redeeming one refresh token twice: once the first redemption has
/// succeeded, the second fails with `AuthDuplicateRefreshToken`, blocks the
/// owner, and from then on a login to the owner's account fails with
/// `AuthBlockedUser` whatever the password.
pub proof fn lemma_replay_blocks_owner(
    conf: RbJwtConf,
    s0: StoreModel,
    raw: Seq<char>,
    t1: i64,
    s1: StoreModel,
    pair: (Seq<char>, Seq<char>),
    t2: i64,
    s2: StoreModel,
    r2: Result<(Seq<char>, Seq<char>), RbError>,
)
    requires
        s0.wf(),
        redeem_effect(conf, s0, raw, t1, s1, Ok::<(Seq<char>, Seq<char>), RbError>(pair)),
        redeem_effect(conf, s1, raw, t2, s2, r2),
    ensures
        r2 == Err::<(Seq<char>, Seq<char>), RbError>(RbError::AuthDuplicateRefreshToken),
        base64_decoded(raw) matches Some(b) && s0.token_with_user(b) matches Some((t, u)) && {
            &&& s2 == s1.with_user_blocked(t.user_id)
            &&& s2.user_by_id(t.user_id) matches Some(v) && v.blocked
            &&& forall|password: Seq<char>|
                login_outcome(s2.user_by_name(u.username), password) == Err::<UserModel, RbError>(
                    RbError::AuthBlockedUser,
                )
        },
{
    let b = base64_decoded(raw)->Some_0;
    let (t, u) = s0.token_with_user(b)->Some_0;
    let stamped = s0.with_token_stamped(b, t1);
    let nb = base64_decoded(pair.1)->Some_0;
    // the record redeemed first
    let i = choose|i: int| 0 <= i < s0.tokens.len() && #[trigger] s0.tokens[i].token == b;
    assert(s0.tokens[i] == t);
    assert(stamped.tokens[i].token == b);
    assert(stamped.token_by_bytes(b) is Some);
    assert(nb != b);
    assert(s1.tokens[i] == stamped.tokens[i]);
    // it is the one record with these bytes in s1, now stamped
    assert forall|k: int| 0 <= k < s1.tokens.len() && #[trigger] s1.tokens[k].token == b implies k == i by {
        if k < s0.tokens.len() {
            assert(s0.tokens[k].token == stamped.tokens[k].token);
        }
    }
    assert(s1.token_by_bytes(b) == Some(s1.tokens[i]));
    assert(s1.tokens[i].last_used_at is Some);
    assert(s1.users == s0.users);
    assert(s1.user_by_id(t.user_id) == s0.user_by_id(t.user_id));
    assert(s1.token_with_user(b) is Some);
    // the owner, blocked in s2
    let j = choose|j: int| 0 <= j < s0.users.len() && #[trigger] s0.users[j].id == t.user_id;
    assert(s2.users[j].id == t.user_id);
    assert(s2.users[j].blocked);
    assert(s0.users[j] == u);
    assert(s2.users[j].username == u.username);
    assert(s2.has_user_named(u.username));
    assert forall|k: int| 0 <= k < s2.users.len() && #[trigger] s2.users[k].username == u.username implies k == j by {
        assert(s0.users[k].username == s2.users[k].username);
    }
}

/// Running the administrator bootstrap twice with the same username and
/// password leaves exactly one account with that username, with the admin
/// role, and adds no account the second time.
pub proof fn lemma_admin_bootstrap_idempotent(
    s0: StoreModel,
    s1: StoreModel,
    s2: StoreModel,
    username: Seq<char>,
    password: Seq<char>,
)
    requires
        s0.wf(),
        admin_bootstrapped(s0, s1, username, password),
        admin_bootstrapped(s1, s2, username, password),
    ensures
        s2.wf(),
        s2.users.len() == s1.users.len(),
        exists|i: int|
            0 <= i < s2.users.len() && #[trigger] s2.users[i].username == username && s2.users[i].admin
                && forall|j: int| 0 <= j < s2.users.len() && #[trigger] s2.users[j].username == username ==> j == i,
{
    let h1 = choose|h: Seq<char>|
        argon2_accepts(h, password) && (s0.has_user_named(username) || s0.next_id < u128::MAX) && s1
            == #[trigger] s0.with_user_upserted(username, h, true);
    lemma_upsert_keeps_wf(s0, username, h1, true);
    let h2 = choose|h: Seq<char>|
        argon2_accepts(h, password) && (s1.has_user_named(username) || s1.next_id < u128::MAX) && s2
            == #[trigger] s1.with_user_upserted(username, h, true);
    lemma_upsert_keeps_wf(s1, username, h2, true);
    let i = choose|i: int| 0 <= i < s2.users.len() && #[trigger] s2.users[i].username == username;
    assert(s2.users[i].admin);
}

/// After an administrator bootstrap, the username names an account with the
/// admin role whose hash verifies against the password; a second bootstrap
/// with the same password therefore finds the account and succeeds.
pub proof fn lemma_bootstrapped_admin_exists(
    s0: StoreModel,
    s1: StoreModel,
    username: Seq<char>,
    password: Seq<char>,
)
    requires
        s0.wf(),
        admin_bootstrapped(s0, s1, username, password),
    ensures
        s1.wf(),
        s1.has_user_named(username),
        s1.user_by_name(username) matches Some(u) && u.admin && argon2_accepts(u.password, password),
{
    let h = choose|h: Seq<char>|
        argon2_accepts(h, password) && (s0.has_user_named(username) || s0.next_id < u128::MAX) && s1
            == #[trigger] s0.with_user_upserted(username, h, true);
    lemma_upsert_keeps_wf(s0, username, h, true);
}

} // verus!
