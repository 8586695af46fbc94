//! The wall clock.
use crate::services::pull_policy::valid_timestamp;
use vstd::prelude::*;

verus! {

/// The current time as a Unix timestamp, from `time::OffsetDateTime::now_utc`
/// and `unix_timestamp`. Claims only that the reading lies in the range an
/// `OffsetDateTime` spans in this build (years -9999 to 9999, UTC: the
/// `large-dates` feature is off); which instant it is, is the clock's.
#[verifier::external_body]
pub fn now_ts() -> (t: i64)
    ensures
        valid_timestamp(t as int),
{
    time::OffsetDateTime::now_utc().unix_timestamp()
}

} // verus!
