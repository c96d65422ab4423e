//! What is known of a reading of the canister's clock.

use vstd::prelude::*;

verus! {

/// Whether the canister's clock can show this number of nanoseconds. It can show any; but outside
/// this module nothing is known of which it can show, so that there a number is shown to be a
/// reading only by taking it from the clock.
pub closed spec fn is_reading(nanos: u64) -> bool {
    nanos <= u64::MAX
}

} // verus!
