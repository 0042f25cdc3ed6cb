//! The clock.

use crate::scrobbler::Moment;
use vstd::prelude::*;

verus! {

/// `time::OffsetDateTime::now_local`, or `now_utc` where the local offset
/// cannot be determined: the current instant, as its `unix_timestamp` and
/// its `nanosecond`, which is less than a second. Two calls need not give the
/// same instant.
#[verifier::external_body]
pub fn now_local() -> (now: Moment)
    ensures
        now.nanoseconds < 1_000_000_000,
{
    let now = time::OffsetDateTime::now_local().unwrap_or_else(
        |_| time::OffsetDateTime::now_utc(),
    );
    Moment { seconds: now.unix_timestamp(), nanoseconds: now.nanosecond() }
}

} // verus!
