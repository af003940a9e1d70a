//! Readings of the system clock.

use vstd::prelude::*;

verus! {

/// The current time as milliseconds since the Unix epoch, read through
/// `chrono::Utc::now` and `DateTime::timestamp_millis`.
///
/// Nothing is stated of the value: it comes from the system clock.
#[verifier::external_body]
pub(crate) fn now_millis() -> i64 {
    chrono::Utc::now().timestamp_millis()
}

/// Today's UTC date written `YYYY-MM-DD`, read through `chrono::Utc::now`
/// and formatted with `DateTime::format("%Y-%m-%d")`.
///
/// Nothing is stated of the value: it comes from the system clock.
#[verifier::external_body]
pub(crate) fn today_utc() -> String {
    chrono::Utc::now().format("%Y-%m-%d").to_string()
}

} // verus!
