use vstd::prelude::*;

verus! {

/// The time of the call, in microseconds since the Unix epoch: what
/// `chrono::Utc::now` reads from the system clock, as `timestamp_micros`
/// counts it. The value depends on the clock alone, so nothing is promised of
/// it. chrono gives up on a clock that stands before the epoch.
#[verifier::external_body]
pub(crate) fn now_micros() -> i64 {
    chrono::Utc::now().timestamp_micros()
}


/// The day of the call in UTC, counted in days from the first of January of
/// the year 1: what `chrono::Utc::now` reads from the system clock, as
/// `Datelike::num_days_from_ce` counts the date of it. Nothing is promised
/// of it.
#[verifier::external_body]
pub(crate) fn today_days() -> i32 {
    chrono::Datelike::num_days_from_ce(&chrono::Utc::now().date_naive())
}

} // verus!
