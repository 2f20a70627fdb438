//! The calls this library makes into `rand`, `hex`, `sha2`, `base64` and `chrono`,
//! each with the contract that the crate's source shows.

use rand::RngCore;
use sha2::{Digest, Sha256};

use vstd::prelude::*;

use crate::amount::hex_char;

verus! {

#[verifier::external_type_specification]
#[verifier::external_body]
pub struct ExDecodeError(base64::DecodeError);

/// Lower-case hexadecimal text of the bytes `b`, high nibble first.
pub open spec fn hex_bytes(b: Seq<u8>) -> Seq<char>
    decreases b.len(),
{
    if b.len() == 0 {
        Seq::empty()
    } else {
        hex_bytes(b.drop_last()) + seq![
            hex_char((b.last() / 16) as nat),
            hex_char((b.last() % 16) as nat),
        ]
    }
}

/// The SHA-256 digest of `data`.
pub uninterp spec fn sha256_of(data: Seq<u8>) -> Seq<u8>;

/// The RFC 3339 text, to the second with a `Z`, of the UTC time `secs`
/// seconds after 1970-01-01T00:00:00Z, or `None` where chrono has no such time.
pub uninterp spec fn rfc3339_of(secs: i64) -> Option<Seq<char>>;

/// The bytes that the standard base64 alphabet (with padding) decodes `text`
/// to, or `None` where `base64::engine::general_purpose::STANDARD` refuses it.
pub uninterp spec fn base64_decoded(text: Seq<char>) -> Option<Seq<u8>>;

/// `n` bytes from `rand::thread_rng().fill_bytes`. Nothing is claimed of
/// their values: they come from the thread-local random generator. The call
/// panics only if the operating system's random source fails when the
/// generator is seeded or reseeded, which no argument can rule out.
#[verifier::external_body]
pub fn random_bytes(n: usize) -> (r: Vec<u8>)
    ensures
        r@.len() == n,
{
    let mut bytes = vec![0u8; n];
    rand::thread_rng().fill_bytes(&mut bytes);
    bytes
}

/// `hex::encode`: two lower-case hexadecimal digits per byte, high nibble
/// first (the crate's `byte2hex` with `HEX_CHARS_LOWER`).
#[verifier::external_body]
pub fn hex_encode(bytes: &[u8]) -> (r: String)
    ensures
        r@ == hex_bytes(bytes@),
{
    hex::encode(bytes)
}

/// `sha2::Sha256::digest`: the 32-byte SHA-256 digest of `data`. The digest
/// itself is named, not stated.
#[verifier::external_body]
pub fn sha256_digest(data: &[u8]) -> (r: Vec<u8>)
    ensures
        r@ == sha256_of(data@),
        r@.len() == 32,
{
    Sha256::digest(data).to_vec()
}

/// `base64::Engine::decode` with the `STANDARD` engine, on the UTF-8 bytes of
/// `text`. Which texts decode, and to what, is named by `base64_decoded`;
/// the empty text decodes to no bytes (no quad to decode, and canonical
/// padding allows empty input).
#[verifier::external_body]
pub fn base64_standard_decode(text: &str) -> (r: Result<Vec<u8>, base64::DecodeError>)
    ensures
        match r {
            Ok(v) => base64_decoded(text@) == Some(v@) && (text@.len() == 0 ==> v@.len() == 0),
            Err(_) => base64_decoded(text@) is None && text@.len() > 0,
        },
{
    base64::Engine::decode(&base64::engine::general_purpose::STANDARD, text)
}

/// `chrono::Utc::now().timestamp()`: the current time in whole seconds since
/// 1970. Which second it is depends on the clock and is not claimed; what is
/// claimed is that chrono has a time for it, since `Utc::now` builds its
/// value with `DateTime::from_timestamp(secs, nanos).unwrap()` and
/// `timestamp` gives those `secs` back. The call panics only if the system
/// clock is set before 1970, which no argument can rule out.
#[verifier::external_body]
pub fn clock_seconds() -> (r: i64)
    ensures
        rfc3339_of(r) is Some,
{
    chrono::Utc::now().timestamp()
}

/// `chrono::DateTime::<Utc>::from_timestamp(secs, 0)`, written by
/// `to_rfc3339_opts(SecondsFormat::Secs, true)`; `None` where `from_timestamp`
/// has no time for `secs`. The text is named by `rfc3339_of`.
#[verifier::external_body]
pub fn rfc3339_at(secs: i64) -> (r: Option<String>)
    ensures
        match r {
            Some(t) => rfc3339_of(secs) == Some(t@),
            None => rfc3339_of(secs) is None,
        },
{
    match chrono::DateTime::<chrono::Utc>::from_timestamp(secs, 0) {
        Some(t) => Some(t.to_rfc3339_opts(chrono::SecondsFormat::Secs, true)),
        None => None,
    }
}

} // verus!
