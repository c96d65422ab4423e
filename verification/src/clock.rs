//! The time at which a request is handled.

use vstd::prelude::*;
use crate::reading::is_reading;
use crate::SecondTimestamp;

verus! {

/// Nanoseconds in a second.
pub const NANOS_PER_SECOND: u64 = 1_000_000_000;

/// Calls `ic_cdk::api::time`, which gives the nanoseconds since the epoch. It claims of the result
/// only that the clock can show it, which holds of every number: which it shows depends on when the
/// call is made. The call is for code that runs in a canister; elsewhere it panics.
#[verifier::external_body]
fn canister_time() -> (res: u64)
    ensures
        is_reading(res),
{
    ic_cdk::api::time()
}

/// The whole seconds in a number of nanoseconds.
pub fn whole_seconds(nanos: u64) -> (res: SecondTimestamp)
    ensures
        res == nanos / NANOS_PER_SECOND,
{
    nanos / NANOS_PER_SECOND
}

/// Whether `t` is the whole seconds of some number of nanoseconds that the clock can show.
pub open spec fn is_clock_time(t: u64) -> bool {
    exists|nanos: u64| #[trigger] is_reading(nanos) && t == nanos / NANOS_PER_SECOND
}

/// The current time in seconds since the epoch.
pub fn now_seconds() -> (res: SecondTimestamp)
    ensures
        is_clock_time(res),
        res <= u64::MAX / NANOS_PER_SECOND,
{
    let nanos: u64 = canister_time();
    let seconds: u64 = whole_seconds(nanos);
    assert(is_reading(nanos) && seconds == nanos / NANOS_PER_SECOND);
    seconds
}

} // verus!
