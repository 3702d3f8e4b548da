//! The two ambient inputs the store needs: fresh event identifiers and the
//! current time. Both come from outside crates and are trusted at this seam.

use vstd::prelude::*;

verus! {

/// Relies on `uuid::Uuid::new_v4` and its hyphenated `Display` form: a fresh
/// random identifier, thirty-six characters long. Nothing else is assumed of
/// a random value.
#[verifier::external_body]
pub fn fresh_event_id() -> (r: String)
    ensures
        r@.len() == 36,
{
    uuid::Uuid::new_v4().to_string()
}

/// Relies on `uuid::Uuid::new_v4` rendered hyphenated: the first eight
/// characters make a short random tail. Nothing else is assumed of a
/// random value.
#[verifier::external_body]
pub fn short_random_id() -> (r: String)
    ensures
        r@.len() == 8,
{
    let s = uuid::Uuid::new_v4().to_string();
    s[..8].to_string()
}

/// Relies on `chrono::Utc::now().timestamp_millis()`: the wall clock in
/// milliseconds since the epoch. Nothing is assumed of the clock's reading.
#[verifier::external_body]
pub fn now_millis() -> i64 {
    chrono::Utc::now().timestamp_millis()
}

/// Relies on `chrono::Utc::now().to_rfc3339()`: the wall clock rendered as an
/// RFC 3339 timestamp. Nothing is assumed of the clock's reading.
#[verifier::external_body]
pub fn now_rfc3339() -> String {
    chrono::Utc::now().to_rfc3339()
}

} // verus!
