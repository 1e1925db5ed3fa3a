//! The present moment.

use vstd::prelude::*;
use crate::instant::Instant;

verus! {

/// Reads the system clock through `chrono::Utc::now` and hands the moment
/// back as seconds and nanoseconds since the epoch. Two calls may differ, so
/// nothing is said of the moment but its form: chrono builds it from the time
/// that has passed since the epoch, whose nanoseconds stay below one second.
/// chrono panics where the system clock is set before the epoch.
#[verifier::external_body]
pub(crate) fn utc_now() -> (r: Instant)
    ensures
        r.wf(),
{
    let now = chrono::Utc::now();
    Instant { secs: now.timestamp(), nanos: now.timestamp_subsec_nanos() }
}

} // verus!
