//! The wall clock, as the core consumes it.
//!
//! Every time-dependent decision takes an instant as an argument; this is
//! the one place an instant is read from the machine. Nothing can be
//! promised of what the clock returns, so the reading is clamped into the
//! range the core's deadline arithmetic accepts, and that range is all the
//! caller may rely on.

use vstd::prelude::*;

use crate::auth::MAX_INSTANT_MS;

verus! {

/// Relies on chrono::Utc::now and timestamp_millis: the current wall-clock
/// time in milliseconds since the epoch. Of the value itself nothing is
/// promised.
#[verifier::external_body]
fn wall_clock_ms() -> i64 {
    chrono::Utc::now().timestamp_millis()
}

/// Reads the current wall-clock instant, clamped into the range the core's
/// deadline arithmetic accepts.
pub fn current_instant_ms() -> (r: i64)
    ensures
        0 <= r <= MAX_INSTANT_MS,
{
    let t = wall_clock_ms();
    if t < 0 {
        0
    } else if t > MAX_INSTANT_MS {
        MAX_INSTANT_MS
    } else {
        t
    }
}

} // verus!
