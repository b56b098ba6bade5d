//! The wall clock and fresh identifiers.
use vstd::prelude::*;

verus! {

/// Relies on `chrono::Utc::now` and `DateTime::timestamp`: the current time in
/// seconds since the Unix epoch. Nothing is known of the value.
#[verifier::external_body]
pub fn now_unix() -> (r: i64) {
    chrono::Utc::now().timestamp()
}

/// Relies on `chrono::Utc::now` and `DateTime::timestamp_nanos_opt`: the
/// current time in nanoseconds since the Unix epoch (0 beyond the year
/// 2262). Nothing is known of the value.
#[verifier::external_body]
pub fn now_nanos() -> (r: i64) {
    chrono::Utc::now().timestamp_nanos_opt().unwrap_or(0)
}

/// Relies on `uuid::Uuid::new_v4` and its `to_string`: a fresh random
/// identifier in hyphenated form. Nothing is known of the value.
#[verifier::external_body]
pub fn fresh_id() -> (r: String) {
    uuid::Uuid::new_v4().to_string()
}

} // verus!
