//! Timestamps: the current time as an RFC 3339 string.

use vstd::prelude::*;
use crate::outside::{now_unix_parts, rfc3339_utc, spec_rfc3339};

verus! {

/// The latest instant, in seconds after the Unix epoch, of the year 9999.
pub const LAST_SECOND_OF_9999: u64 = 253402300799;

/// The current UTC time as an RFC 3339 timestamp, the epoch itself when
/// the clock reads earlier than it, and an empty string for a clock past
/// the year 9999.
pub fn now_rfc3339() -> (t: String)
    ensures
        exists|secs: u64, nanos: u32| #![trigger spec_rfc3339(secs as i64, nanos)]
            if secs <= LAST_SECOND_OF_9999 && nanos < 1_000_000_000 {
                t@ == spec_rfc3339(secs as i64, nanos)
            } else {
                t@.len() == 0
            },
{
    let (secs, nanos) = now_unix_parts();
    let t = if secs <= LAST_SECOND_OF_9999 {
        match rfc3339_utc(secs as i64, nanos) {
            Some(t) => t,
            None => String::new(),
        }
    } else {
        String::new()
    };
    let ghost reading = spec_rfc3339(secs as i64, nanos);
    assert(if secs <= LAST_SECOND_OF_9999 && nanos < 1_000_000_000 {
        t@ == reading
    } else {
        t@.len() == 0
    });
    t
}

} // verus!
