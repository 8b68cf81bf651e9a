//! The wall clock and fresh identifiers: values that depend on when and where
//! they are taken, so little is promised of them beyond their form.

use vstd::prelude::*;

use std::time::{SystemTime, UNIX_EPOCH};

verus! {

/// Seconds since the Unix epoch by `SystemTime::now()`, or `None` when the
/// clock reads a time before the epoch (`duration_since` fails).
/// Trusted only for its type: the value depends on the time of the call.
#[verifier::external_body]
pub(crate) fn unix_time_secs() -> (r: Option<u64>) {
    SystemTime::now().duration_since(UNIX_EPOCH).ok().map(|d| d.as_secs())
}

/// A character of the Crockford base-32 alphabet that ULIDs are written in:
/// `0-9` and the upper-case letters but `I`, `L`, `O` and `U`.
pub open spec fn is_ulid_char(c: char) -> bool {
    ('0' <= c && c <= '9') || ('A' <= c && c <= 'Z' && c != 'I' && c != 'L' && c != 'O' && c != 'U')
}

/// A fresh ULID in its text form, from `ulid::Ulid::new().to_string()`.
/// Trusted for the form of every outcome: the crate writes the 128-bit value
/// as 26 characters of its Crockford alphabet `0123456789ABCDEFGHJKMNPQRSTVWXYZ`.
/// Which ULID comes out is not stated: it depends on the time and on chance.
#[verifier::external_body]
pub(crate) fn new_ulid() -> (r: String)
    ensures
        r@.len() == 26,
        forall|i: int| 0 <= i < 26 ==> is_ulid_char(#[trigger] r@[i]),
{
    ulid::Ulid::new().to_string()
}

} // verus!
