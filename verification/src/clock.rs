//! The wall clock, behind a trusted boundary.

use vstd::prelude::*;

verus! {

/// Relies on `chrono::Utc::now` (and `DateTime::timestamp_millis`): the
/// current time as milliseconds since the Unix epoch. Nothing is assumed
/// about the value — ledger contracts quantify over every timestamp.
/// `chrono` aborts if the system clock is set before the epoch.
#[verifier::external_body]
pub(crate) fn unix_timestamp_millis() -> i64 {
    chrono::Utc::now().timestamp_millis()
}

} // verus!
