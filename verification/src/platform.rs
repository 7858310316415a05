//! What the library takes from outside verified code: the wall clock, fresh
//! random identifiers, and a few operations on text.
//!
//! Each item here is believed, not proved. The doc comment of each says what
//! is claimed of the code behind it.

use vstd::prelude::*;

verus! {

/// Nanoseconds in one second.
pub const NANOS_PER_SECOND: i128 = 1_000_000_000;

/// Whether `t` is a count of nanoseconds since the Unix epoch whose whole
/// seconds fit in an `i64`. Every instant that the clock reports is one.
pub open spec fn is_unix_nanos(t: int) -> bool {
    i64::MIN * NANOS_PER_SECOND <= t < (i64::MAX + 1) * NANOS_PER_SECOND
}

/// The current instant in UTC, in nanoseconds since the Unix epoch.
///
/// Calls `time::OffsetDateTime::now_utc` and reads the instant with
/// `unix_timestamp_nanos`, which computes an `i64` count of seconds times
/// 1,000,000,000 plus a count of nanoseconds below 1,000,000,000. The contract
/// claims that range and nothing else: two calls may return any two instants.
#[verifier::external_body]
pub(crate) fn now_utc_nanos() -> (now: i128)
    ensures
        is_unix_nanos(now as int),
{
    time::OffsetDateTime::now_utc().unix_timestamp_nanos()
}

/// A fresh random (version 4) UUID as its 128-bit value.
///
/// Calls `uuid::Uuid::new_v4` and packs the bytes with `as_u128`. Nothing is
/// claimed of the value.
#[verifier::external_body]
pub(crate) fn random_uuid() -> u128 {
    uuid::Uuid::new_v4().as_u128()
}

/// The lowercase form of a text, as Unicode defines it. Nothing is said here
/// of what it is: it is whatever `str::to_lowercase` computes.
pub uninterp spec fn lowercase_of(text: Seq<char>) -> Seq<char>;

/// The lowercase form of `text`.
///
/// Calls `str::to_lowercase`, which returns the lowercase equivalent of the
/// whole text by the Unicode case tables and depends on the text alone. The
/// contract gives that result its name.
#[verifier::external_body]
pub(crate) fn to_lowercase(text: &str) -> (lowered: String)
    ensures
        lowered@ == lowercase_of(text@),
{
    text.to_lowercase()
}

/// `String::push` appends the character to the end of the string.
pub assume_specification[ String::push ](s: &mut String, c: char)
    ensures
        final(s)@ == old(s)@.push(c),
;

} // verus!
