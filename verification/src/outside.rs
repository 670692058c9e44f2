//! Calls into std and into outside crates. Each trusted item states what
//! the called function's documentation promises and is not proved; the
//! Unicode white-space test, a fixed list of code points, is written out
//! and verified.

use vstd::prelude::*;
use std::hash::{Hash, Hasher};

verus! {

/// Calls `String::push`, which appends one character to the string.
#[verifier::external_body]
pub fn push_char(s: &mut String, c: char)
    ensures
        final(s)@ == old(s)@.push(c),
{
    s.push(c);
}

} // verus!

verus! {

/// The BLAKE3 digest of a byte sequence (32 bytes).
pub uninterp spec fn spec_blake3(data: Seq<u8>) -> Seq<u8>;

/// Calls `blake3::hash` and returns the raw bytes of the digest. The crate
/// documents the digest as `OUT_LEN` = 32 bytes; its value is named by
/// `spec_blake3` and not stated further.
#[verifier::external_body]
pub fn blake3_hash(data: &[u8]) -> (r: Vec<u8>)
    ensures
        r@ == spec_blake3(data@),
        r@.len() == 32,
{
    blake3::hash(data).as_bytes().to_vec()
}

} // verus!

verus! {

/// Whether a character has the Unicode `Alphabetic` property.
pub uninterp spec fn spec_is_alphabetic(c: char) -> bool;

/// Whether a character is in a Unicode number category (Nd, Nl, No).
pub uninterp spec fn spec_is_numeric(c: char) -> bool;

/// Whether a character has the Unicode `White_Space` property: tab to
/// carriage return, space, next line, no-break space, ogham space mark,
/// en quad to hair space, line and paragraph separators, narrow no-break
/// space, medium mathematical space and ideographic space.
pub open spec fn spec_is_whitespace(c: char) -> bool {
    let u = c as u32;
    ||| 0x09 <= u <= 0x0D
    ||| u == 0x20
    ||| u == 0x85
    ||| u == 0xA0
    ||| u == 0x1680
    ||| 0x2000 <= u <= 0x200A
    ||| u == 0x2028
    ||| u == 0x2029
    ||| u == 0x202F
    ||| u == 0x205F
    ||| u == 0x3000
}

/// Whether a character is an ASCII letter.
pub open spec fn spec_ascii_letter(c: char) -> bool {
    ('a' <= c && c <= 'z') || ('A' <= c && c <= 'Z')
}

/// Whether a character is an ASCII digit.
pub open spec fn spec_ascii_digit(c: char) -> bool {
    '0' <= c && c <= '9'
}

/// Calls `char::is_alphabetic`; its value is the Unicode `Alphabetic`
/// property of the character, named by `spec_is_alphabetic`. Among ASCII
/// characters the property holds of the letters alone.
#[verifier::external_body]
pub fn char_is_alphabetic(c: char) -> (r: bool)
    ensures
        r == spec_is_alphabetic(c),
        (c as u32) < 128 ==> (r <==> spec_ascii_letter(c)),
{
    c.is_alphabetic()
}

/// Calls `char::is_numeric`; its value is membership of the character in
/// the Unicode number categories, named by `spec_is_numeric`. Among ASCII
/// characters only the digits are numbers.
#[verifier::external_body]
pub fn char_is_numeric(c: char) -> (r: bool)
    ensures
        r == spec_is_numeric(c),
        (c as u32) < 128 ==> (r <==> spec_ascii_digit(c)),
{
    c.is_numeric()
}

/// Whether a character has the Unicode `White_Space` property, as
/// `char::is_whitespace` answers; the property is a fixed list of code
/// points, checked here directly.
pub fn char_is_whitespace(c: char) -> (r: bool)
    ensures
        r == spec_is_whitespace(c),
{
    let u = c as u32;
    (0x09 <= u && u <= 0x0D) || u == 0x20 || u == 0x85 || u == 0xA0 || u == 0x1680
        || (0x2000 <= u && u <= 0x200A) || u == 0x2028 || u == 0x2029 || u == 0x202F
        || u == 0x205F || u == 0x3000
}

} // verus!

verus! {

/// Calls `SystemTime::now` and returns the whole seconds since the Unix
/// epoch, or 0 when the clock reads earlier than the epoch. The value
/// depends on the clock, so nothing is stated of it.
#[verifier::external_body]
pub fn now_unix_secs() -> (t: u64) {
    match std::time::SystemTime::now().duration_since(std::time::UNIX_EPOCH) {
        Ok(d) => d.as_secs(),
        Err(_) => 0,
    }
}

} // verus!

verus! {

/// Calls `SystemTime::now` and returns the milliseconds since the Unix
/// epoch (as `u64`), or 0 when the clock reads earlier than the epoch. The
/// value depends on the clock, so nothing is stated of it.
#[verifier::external_body]
pub fn now_unix_millis() -> (t: u64) {
    match std::time::SystemTime::now().duration_since(std::time::UNIX_EPOCH) {
        Ok(d) => d.as_millis() as u64,
        Err(_) => 0,
    }
}

/// Hashes the current `SystemTime` with `DefaultHasher` and keeps the low
/// 32 bits, as an identifier. The value depends on the clock, so nothing is
/// stated of it.
#[verifier::external_body]
pub fn time_hash_id() -> (id: u32) {
    let mut hasher = std::collections::hash_map::DefaultHasher::new();
    std::time::SystemTime::now().hash(&mut hasher);
    hasher.finish() as u32
}

} // verus!

verus! {

/// What `<str as Debug>::fmt` writes for a string: the characters between
/// double quotes, with quotes, backslashes and control characters escaped.
pub uninterp spec fn spec_debug_str(s: Seq<char>) -> Seq<char>;

/// Formats a string with `{:?}` (its `Debug` rendering). The escaping rules
/// take pages to state; the result is named by `spec_debug_str`.
#[verifier::external_body]
pub fn debug_str(s: &str) -> (r: String)
    ensures
        r@ == spec_debug_str(s@),
{
    format!("{:?}", s)
}

} // verus!

verus! {

/// Reads `SystemTime::now` once and returns its distance from the Unix
/// epoch as whole seconds and the nanoseconds past them (`subsec_nanos`,
/// documented to be under one billion), or `(0, 0)` when the clock reads
/// earlier than the epoch. The reading depends on the clock, so nothing
/// more is stated of it.
#[verifier::external_body]
pub fn now_unix_parts() -> (t: (u64, u32))
    ensures
        t.1 < 1_000_000_000,
{
    match std::time::SystemTime::now().duration_since(std::time::UNIX_EPOCH) {
        Ok(d) => (d.as_secs(), d.subsec_nanos()),
        Err(_) => (0, 0),
    }
}

/// What `DateTime::<Utc>::to_rfc3339` writes for the instant `secs`
/// seconds and `nanos` nanoseconds after the Unix epoch.
pub uninterp spec fn spec_rfc3339(secs: i64, nanos: u32) -> Seq<char>;

/// Calls `chrono::DateTime::from_timestamp(secs, nanos)` and renders the
/// instant with `to_rfc3339`. `from_timestamp` gives `None` only outside
/// its range of dates, which holds every instant from the epoch to the end
/// of the year 9999 with fewer than a billion nanoseconds; `to_rfc3339`
/// writes into a `String` and does not fail. The text is named by
/// `spec_rfc3339`.
#[verifier::external_body]
pub fn rfc3339_utc(secs: i64, nanos: u32) -> (r: Option<String>)
    ensures
        0 <= secs <= 253402300799 && nanos < 1_000_000_000 ==> r is Some,
        r matches Some(t) ==> t@ == spec_rfc3339(secs, nanos),
{
    match chrono::DateTime::from_timestamp(secs, nanos) {
        Some(t) => Some(t.to_rfc3339()),
        None => None,
    }
}

} // verus!
