//! Session claims and the signed session token that carries them.
//!
//! A session token is the standard base64 text of `payload ++ tag`, where
//! `payload` is the canonical encoding of the claims (16 bytes of id, little
//! endian; one byte for the admin flag; 8 bytes of expiry, little endian,
//! two's complement; then the username in UTF-8) and `tag` is the
//! HMAC-SHA256 of `payload` under the server secret.
use crate::crypto::{
    base64_decode, base64_decoded, base64_encode, base64_of, hmac_sha256, hmac_sha256_of, utf8_str,
    MAC_LEN,
};
use crate::errors::{RbError, RbResult};
use crate::text::bytes_equal;
use vstd::bytes::{
    lemma_auto_spec_u128_to_from_le_bytes, lemma_auto_spec_u64_to_from_le_bytes,
    spec_u128_from_le_bytes, spec_u128_to_le_bytes, spec_u64_from_le_bytes, spec_u64_to_le_bytes,
    u128_from_le_bytes, u128_to_le_bytes, u64_from_le_bytes, u64_to_le_bytes,
};
use vstd::prelude::*;
use vstd::slice::{slice_subrange, slice_to_vec};
use vstd::string::StringSliceAdditionalSpecFns;
use vstd::utf8::{decode_utf8, encode_utf8, encode_utf8_decode_utf8, encode_utf8_valid_utf8, valid_utf8};

verus! {

/// Identity and role of an account, with the time after which they may no
/// longer be trusted.
#[derive(Debug, Clone, PartialEq, Eq)]
pub struct Claims {
    pub id: u128,
    pub username: String,
    pub admin: bool,
    /// Expiry, in seconds since the Unix epoch.
    pub exp: i64,
}

/// The mathematical value of `Claims`.
pub struct ClaimsModel {
    pub id: u128,
    pub username: Seq<char>,
    pub admin: bool,
    pub exp: i64,
}

impl View for Claims {
    type V = ClaimsModel;

    open spec fn view(&self) -> ClaimsModel {
        ClaimsModel { id: self.id, username: self.username@, admin: self.admin, exp: self.exp }
    }
}

/// Bytes of the fixed-size part of the payload: id, admin flag, expiry.
pub const PAYLOAD_HEAD_LEN: usize = 25;

/// The canonical encoding of a set of claims.
pub open spec fn payload_of(c: ClaimsModel) -> Seq<u8> {
    spec_u128_to_le_bytes(c.id) + seq![if c.admin { 1u8 } else { 0u8 }] + spec_u64_to_le_bytes(
        #[verifier::truncate] (c.exp as u64),
    ) + encode_utf8(c.username)
}

/// Reads claims back from a payload; `None` where the bytes are no canonical
/// encoding.
pub open spec fn claims_of_payload(b: Seq<u8>) -> Option<ClaimsModel> {
    if b.len() < PAYLOAD_HEAD_LEN || !(b[16] == 0u8 || b[16] == 1u8) || !valid_utf8(
        b.subrange(PAYLOAD_HEAD_LEN as int, b.len() as int),
    ) {
        None
    } else {
        Some(
            ClaimsModel {
                id: spec_u128_from_le_bytes(b.subrange(0, 16)),
                username: decode_utf8(b.subrange(PAYLOAD_HEAD_LEN as int, b.len() as int)),
                admin: b[16] == 1u8,
                exp: #[verifier::truncate] (spec_u64_from_le_bytes(
                    b.subrange(17, PAYLOAD_HEAD_LEN as int),
                ) as i64),
            },
        )
    }
}

/// The session token that signing `c` under `key` gives.
pub open spec fn session_token_of(key: Seq<u8>, c: ClaimsModel) -> Seq<char> {
    base64_of(payload_of(c) + hmac_sha256_of(key, payload_of(c)))
}

/// The claims a token carries, if it is well formed and its tag is the
/// HMAC-SHA256 of its payload under `key`.
pub open spec fn claims_of_token(key: Seq<u8>, token: Seq<char>) -> Option<ClaimsModel> {
    match base64_decoded(token) {
        Some(b) => {
            if b.len() >= MAC_LEN && b.subrange(b.len() - MAC_LEN, b.len() as int)
                == hmac_sha256_of(key, b.subrange(0, b.len() - MAC_LEN)) {
                claims_of_payload(b.subrange(0, b.len() - MAC_LEN))
            } else {
                None
            }
        },
        None => None,
    }
}

/// Decoding the canonical encoding of any claims gives those claims back.
pub proof fn lemma_payload_round_trip(c: ClaimsModel)
    ensures
        claims_of_payload(payload_of(c)) == Some(c),
{
    lemma_auto_spec_u128_to_from_le_bytes();
    lemma_auto_spec_u64_to_from_le_bytes();
    encode_utf8_valid_utf8(c.username);
    encode_utf8_decode_utf8(c.username);
    let b = payload_of(c);
    let a = if c.admin { 1u8 } else { 0u8 };
    assert(b.subrange(0, 16) == spec_u128_to_le_bytes(c.id));
    assert(b[16] == a);
    assert(b.subrange(17, PAYLOAD_HEAD_LEN as int) == spec_u64_to_le_bytes(#[verifier::truncate] (c.exp as u64)));
    assert(b.subrange(PAYLOAD_HEAD_LEN as int, b.len() as int) == encode_utf8(c.username));
    let x = c.exp;
    assert((#[verifier::truncate] ((#[verifier::truncate] (x as u64)) as i64)) == x) by (bit_vector);
}

/// The canonical encoding of `c`.
pub fn encode_payload(c: &Claims) -> (r: Vec<u8>)
    ensures
        r@ == payload_of(c@),
{
    let mut out = u128_to_le_bytes(c.id);
    out.push(if c.admin { 1u8 } else { 0u8 });
    let mut exp = u64_to_le_bytes(#[verifier::truncate] (c.exp as u64));
    out.append(&mut exp);
    let mut name = slice_to_vec(c.username.as_str().as_bytes());
    out.append(&mut name);
    assert(out@ == payload_of(c@));
    out
}

/// Reads claims from a payload: `None` exactly where the bytes are no
/// canonical encoding of claims.
pub fn decode_payload(b: &[u8]) -> (r: Option<Claims>)
    ensures
        match r {
            Some(c) => claims_of_payload(b@) == Some(c@),
            None => claims_of_payload(b@) is None,
        },
{
    if b.len() < PAYLOAD_HEAD_LEN {
        return None;
    }
    let flag = b[16];
    if flag != 0 && flag != 1 {
        return None;
    }
    let name_bytes = slice_subrange(b, PAYLOAD_HEAD_LEN, b.len());
    let name = match utf8_str(name_bytes) {
        Some(s) => s,
        None => return None,
    };
    proof {
        vstd::utf8::decode_utf8_encode_utf8(name_bytes@);
        encode_utf8_decode_utf8(name@);
    }
    let id = u128_from_le_bytes(slice_subrange(b, 0, 16));
    let exp = #[verifier::truncate] (u64_from_le_bytes(slice_subrange(b, 17, PAYLOAD_HEAD_LEN)) as i64);
    let c = Claims { id, username: name.to_owned(), admin: flag == 1, exp };
    assert(c@.username == decode_utf8(name_bytes@));
    Some(c)
}

/// Signs `c` under `key` into a session token, which carries exactly `c`
/// when checked under `key`.
pub fn sign_claims(key: &str, c: &Claims) -> (r: String)
    ensures
        r@ == session_token_of(key.spec_bytes(), c@),
        claims_of_token(key.spec_bytes(), r@) == Some(c@),
{
    let mut bytes = encode_payload(c);
    let mut tag = hmac_sha256(key.as_bytes(), bytes.as_slice());
    let ghost payload = bytes@;
    let ghost mac = tag@;
    bytes.append(&mut tag);
    let token = base64_encode(bytes.as_slice());
    proof {
        lemma_payload_round_trip(c@);
        assert(bytes@.subrange(0, bytes@.len() - MAC_LEN) == payload);
        assert(bytes@.subrange(bytes@.len() - MAC_LEN, bytes@.len() as int) == mac);
    }
    token
}

/// Checks a session token's structure and signature under `key` and reads
/// its claims; `AuthUnauthorized` exactly where the token carries no claims
/// signed under `key`.
pub fn verify_token(key: &str, token: &str) -> (r: RbResult<Claims>)
    ensures
        match r {
            Ok(c) => claims_of_token(key.spec_bytes(), token@) == Some(c@),
            Err(e) => e == RbError::AuthUnauthorized && claims_of_token(
                key.spec_bytes(),
                token@,
            ) is None,
        },
{
    let bytes = match base64_decode(token) {
        Some(b) => b,
        None => return Err(RbError::AuthUnauthorized),
    };
    if bytes.len() < MAC_LEN {
        return Err(RbError::AuthUnauthorized);
    }
    let split = bytes.len() - MAC_LEN;
    let payload = slice_subrange(bytes.as_slice(), 0, split);
    let tag = slice_subrange(bytes.as_slice(), split, bytes.len());
    let expected = hmac_sha256(key.as_bytes(), payload);
    if !bytes_equal(tag, expected.as_slice()) {
        return Err(RbError::AuthUnauthorized);
    }
    match decode_payload(payload) {
        Some(c) => Ok(c),
        None => Err(RbError::AuthUnauthorized),
    }
}

} // verus!
