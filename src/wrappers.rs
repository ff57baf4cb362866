//! Calls into std and outside crates that verified code relies on, each with
//! the contract that the callee's documentation or source gives.

use vstd::prelude::*;
use vstd::utf8::encode_utf8;

verus! {

/// Error of `time::OffsetDateTime::parse`, carried through unread.
#[verifier::external_type_specification]
#[verifier::external_body]
pub struct ExTimeParseError(time::error::Parse);

/// Error of `url::Url::parse`, carried through unread.
#[verifier::external_type_specification]
#[verifier::external_body]
pub struct ExUrlParseError(url::ParseError);

/// The instant that an RFC 3339 timestamp denotes, in nanoseconds since the
/// Unix epoch, or `None` where the text is not an RFC 3339 timestamp.
pub uninterp spec fn rfc3339_instant(text: Seq<char>) -> Option<int>;

/// The RFC 3339 text, in UTC, of the instant `nanos` nanoseconds after the
/// Unix epoch.
pub uninterp spec fn rfc3339_text(nanos: int) -> Seq<char>;

/// The serialization of the URL that `text` parses to, or `None` where it is
/// not an absolute URL.
pub uninterp spec fn parsed_url(text: Seq<char>) -> Option<Seq<char>>;

/// The keyed BLAKE3 digest of `input` under `key`.
pub uninterp spec fn keyed_hash_of(key: Seq<u8>, input: Seq<u8>) -> Seq<u8>;

/// 0000-01-01T00:00:00Z, in nanoseconds since the Unix epoch.
pub const RFC3339_MIN_NANOS: i128 = -62_167_219_200_000_000_000;

/// 10000-01-01T00:00:00Z, in nanoseconds since the Unix epoch.
pub const RFC3339_END_NANOS: i128 = 253_402_300_800_000_000_000;

/// RFC 3339 text exists for instants in the years 0 to 9999.
pub open spec fn rfc3339_formattable(nanos: int) -> bool {
    RFC3339_MIN_NANOS <= nanos < RFC3339_END_NANOS
}

/// The digit for `d` (below 62) in base62's standard alphabet: `0`-`9`, then
/// `A`-`Z`, then `a`-`z`.
pub open spec fn base62_digit(d: int) -> char {
    if d < 10 {
        (48 + d) as u8 as char
    } else if d < 36 {
        (65 + d - 10) as u8 as char
    } else {
        (97 + d - 36) as u8 as char
    }
}

/// `n` written in base 62, most significant digit first, without leading zeros.
pub open spec fn base62_text(n: nat) -> Seq<char>
    decreases n,
{
    if n < 62 {
        seq![base62_digit(n as int)]
    } else {
        base62_text(n / 62).push(base62_digit((n % 62) as int))
    }
}

/// Relies on `String::push`: the character is appended at the end.
#[verifier::external_body]
pub(crate) fn push_char(s: &mut String, c: char)
    ensures
        final(s)@ == old(s)@.push(c),
{
    s.push(c);
}

/// Relies on `time::OffsetDateTime::now_utc` and `unix_timestamp_nanos`: the
/// current instant. Nothing is promised of its value.
#[verifier::external_body]
pub(crate) fn now_unix_nanos() -> (r: i128) {
    time::OffsetDateTime::now_utc().unix_timestamp_nanos()
}

/// Relies on `time::OffsetDateTime::parse` with the RFC 3339 description and on
/// `unix_timestamp_nanos`: the instant depends on the text alone.
#[verifier::external_body]
pub(crate) fn parse_rfc3339(text: &str) -> (r: Result<i128, time::error::Parse>)
    ensures
        match r {
            Ok(n) => rfc3339_instant(text@) == Some(n as int),
            Err(_) => rfc3339_instant(text@) is None,
        },
{
    match time::OffsetDateTime::parse(text, &time::format_description::well_known::Rfc3339) {
        Ok(t) => Ok(t.unix_timestamp_nanos()),
        Err(e) => Err(e),
    }
}

/// Relies on `time::OffsetDateTime::from_unix_timestamp_nanos` and `format` with
/// the RFC 3339 description, which fails only for years outside 0 to 9999.
#[verifier::external_body]
pub(crate) fn format_rfc3339(nanos: i128) -> (r: Option<String>)
    ensures
        r is Some <==> rfc3339_formattable(nanos as int),
        r matches Some(t) ==> t@ == rfc3339_text(nanos as int),
{
    match time::OffsetDateTime::from_unix_timestamp_nanos(nanos) {
        Ok(t) => t.format(&time::format_description::well_known::Rfc3339).ok(),
        Err(_) => None,
    }
}

/// Relies on `url::Url::parse` and the URL's serialization: the result depends
/// on the text alone.
#[verifier::external_body]
pub(crate) fn parse_url(text: &str) -> (r: Result<String, url::ParseError>)
    ensures
        match r {
            Ok(u) => parsed_url(text@) == Some(u@),
            Err(_) => parsed_url(text@) is None,
        },
{
    match url::Url::parse(text) {
        Ok(u) => Ok(u.into()),
        Err(e) => Err(e),
    }
}

/// Relies on `blake3::Hasher::new_keyed`, `update` and `finalize`: the keyed
/// digest of `first` followed by `second`.
#[verifier::external_body]
pub(crate) fn keyed_hash(key: &[u8; 32], first: &str, second: &str) -> (r: [u8; 32])
    ensures
        r@ == keyed_hash_of(key@, encode_utf8(first@) + encode_utf8(second@)),
{
    *blake3::Hasher::new_keyed(key).update(first.as_bytes()).update(second.as_bytes()).finalize().as_bytes()
}

/// Relies on `base62::encode`: the number in base 62 with the standard alphabet.
#[verifier::external_body]
pub(crate) fn base62_encode(n: u128) -> (r: String)
    ensures
        r@ == base62_text(n as nat),
{
    base62::encode(n)
}

/// Relies on `rand::rng` and `RngCore::fill_bytes`: 32 random bytes. Nothing is
/// promised of their values.
#[verifier::external_body]
pub(crate) fn random_salt() -> (r: [u8; 32]) {
    let mut salt = [0u8; 32];
    rand::RngCore::fill_bytes(&mut rand::rng(), &mut salt);
    salt
}

} // verus!
