//! The cryptographic and encoding primitives the core relies on: Argon2
//! password hashing, HMAC-SHA256, base64, UTF-8 decoding and the system RNG.
use hmac::{Mac, NewMac};
use rand::Rng;
use vstd::prelude::*;
use vstd::string::StringSliceAdditionalSpecFns;

verus! {

/// Whether `argon2::verify_encoded(encoded, password)` accepts the password:
/// it re-derives the digest with the parameters and salt embedded in
/// `encoded` and answers `Ok(true)` on a match.
pub uninterp spec fn argon2_accepts(encoded: Seq<char>, password: Seq<char>) -> bool;

/// The encoded string `argon2::hash_encoded` makes of a password and a salt
/// under the default configuration: variant, version, costs, salt and digest.
pub uninterp spec fn argon2_encoded_of(password: Seq<char>, salt: Seq<u8>) -> Seq<char>;

/// HMAC-SHA256 of `msg` under `key`.
pub uninterp spec fn hmac_sha256_of(key: Seq<u8>, msg: Seq<u8>) -> Seq<u8>;

/// The character of the standard base64 alphabet for a 6-bit value.
pub open spec fn base64_digit(v: int) -> char {
    seq![
        'A', 'B', 'C', 'D', 'E', 'F', 'G', 'H', 'I', 'J', 'K', 'L', 'M', 'N', 'O', 'P', 'Q', 'R',
        'S', 'T', 'U', 'V', 'W', 'X', 'Y', 'Z', 'a', 'b', 'c', 'd', 'e', 'f', 'g', 'h', 'i', 'j',
        'k', 'l', 'm', 'n', 'o', 'p', 'q', 'r', 's', 't', 'u', 'v', 'w', 'x', 'y', 'z', '0', '1',
        '2', '3', '4', '5', '6', '7', '8', '9', '+', '/',
    ][v]
}

/// Standard, padded base64 text of `bytes`: each group of three bytes
/// gives four digits, and a last group of one or two bytes is padded with
/// `=` to four characters.
pub open spec fn base64_of(bytes: Seq<u8>) -> Seq<char>
    decreases bytes.len(),
{
    if bytes.len() == 0 {
        seq![]
    } else if bytes.len() == 1 {
        seq![base64_digit((bytes[0] as int) / 4), base64_digit(((bytes[0] as int) % 4) * 16), '=', '=']
    } else if bytes.len() == 2 {
        seq![
            base64_digit((bytes[0] as int) / 4),
            base64_digit(((bytes[0] as int) % 4) * 16 + (bytes[1] as int) / 16),
            base64_digit(((bytes[1] as int) % 16) * 4),
            '=',
        ]
    } else {
        seq![
            base64_digit((bytes[0] as int) / 4),
            base64_digit(((bytes[0] as int) % 4) * 16 + (bytes[1] as int) / 16),
            base64_digit(((bytes[1] as int) % 16) * 4 + (bytes[2] as int) / 64),
            base64_digit((bytes[2] as int) % 64),
        ] + base64_of(bytes.subrange(3, bytes.len() as int))
    }
}

/// What standard base64 decoding makes of `text`: `None` where it is not
/// valid base64.
pub uninterp spec fn base64_decoded(text: Seq<char>) -> Option<Seq<u8>>;

/// Length in bytes of an HMAC-SHA256 tag.
pub const MAC_LEN: usize = 32;

/// Relies on `argon2::verify_encoded`: `Ok(true)` exactly when the password
/// matches; a malformed `encoded` gives `Err`, which counts as no match.
#[verifier::external_body]
pub(crate) fn argon2_verify(encoded: &str, password: &str) -> (r: bool)
    ensures
        r == argon2_accepts(encoded@, password@),
{
    matches!(argon2::verify_encoded(encoded, password.as_bytes()), Ok(true))
}

/// Relies on `argon2::hash_encoded` with the default configuration
/// (Argon2i, version 13, 4096 KiB, 3 passes, 1 lane, 32-byte digest, no
/// secret or associated data): the encoded string embeds variant, version,
/// costs, salt and digest, so that `argon2::verify_encoded` on it accepts
/// the same password. With that configuration it fails exactly on a salt
/// outside 8 to `u32::MAX` bytes or a password over `u32::MAX` bytes.
#[verifier::external_body]
pub(crate) fn argon2_hash(password: &str, salt: &[u8]) -> (r: Option<String>)
    ensures
        r is Some <==> (8 <= salt@.len() <= u32::MAX && password.spec_bytes().len() <= u32::MAX),
        r matches Some(e) ==> e@ == argon2_encoded_of(password@, salt@) && argon2_accepts(
            e@,
            password@,
        ),
{
    let config = argon2::Config::default();
    argon2::hash_encoded(password.as_bytes(), salt, &config).ok()
}

/// Relies on `hmac::Hmac::<sha2::Sha256>`: `new_from_slice` takes a key of
/// any length (a longer one is hashed, a shorter one padded) and never
/// fails; fed `msg`, it finalizes into the 32-byte tag.
#[verifier::external_body]
pub(crate) fn hmac_sha256(key: &[u8], msg: &[u8]) -> (r: Vec<u8>)
    ensures
        r@ == hmac_sha256_of(key@, msg@),
        r@.len() == MAC_LEN,
{
    let mut mac = hmac::Hmac::<sha2::Sha256>::new_from_slice(key)
        .expect("HMAC takes a key of any length");
    mac.update(msg);
    mac.finalize().into_bytes().to_vec()
}

/// Relies on `base64::encode`: standard alphabet with padding, which
/// `base64::decode` turns back into the same bytes.
#[verifier::external_body]
pub(crate) fn base64_encode(bytes: &[u8]) -> (r: String)
    ensures
        r@ == base64_of(bytes@),
        base64_decoded(r@) == Some(bytes@),
{
    base64::encode(bytes)
}

/// Relies on `base64::decode`: the bytes, or an error on text that is not
/// valid base64.
#[verifier::external_body]
pub(crate) fn base64_decode(text: &str) -> (r: Option<Vec<u8>>)
    ensures
        r matches Some(b) ==> base64_decoded(text@) == Some(b@),
        r is None ==> base64_decoded(text@) is None,
{
    base64::decode(text).ok()
}

/// Relies on `rand::thread_rng` filling a buffer of `n` bytes from a
/// cryptographically secure generator.
#[verifier::external_body]
pub(crate) fn random_bytes(n: usize) -> (r: Vec<u8>)
    ensures
        r@.len() == n,
{
    let mut buf = vec![0u8; n];
    rand::thread_rng().fill(&mut buf[..]);
    buf
}

/// Relies on `std::str::from_utf8`: a string slice over exactly these bytes
/// where they are valid UTF-8, else an error.
#[verifier::external_body]
pub(crate) fn utf8_str(bytes: &[u8]) -> (r: Option<&str>)
    ensures
        r is Some <==> vstd::utf8::valid_utf8(bytes@),
        r matches Some(s) ==> s.spec_bytes() == bytes@,
{
    std::str::from_utf8(bytes).ok()
}

} // verus!
