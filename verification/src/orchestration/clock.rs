//! Time, injected.

use std::sync::Arc;

use vstd::prelude::*;

verus! {

/// Where the orchestration reads the time from.
///
/// Nothing is assumed of a reading: every decision that depends on the time is made by a function
/// that takes the reading as an argument.
pub trait Clock {
    /// Milliseconds since the Unix epoch.
    fn now_ms(&self) -> u64;
}

/// A reading the clock may give.
pub open spec fn reads<C: Clock>(clock: &C, now_ms: u64) -> bool {
    call_ensures(C::now_ms, (clock,), now_ms)
}

/// One more handle to a clock: `Arc::clone` of the standard library, whose result points to the same
/// value.
#[verifier::external_body]
pub(crate) fn shared<C: Clock>(clock: &Arc<C>) -> (r: Arc<C>)
    ensures
        r == *clock,
{
    Arc::clone(clock)
}

/// A reading in whole seconds.
pub open spec fn secs(now_ms: u64) -> u64 {
    now_ms / 1000
}

/// A reading in whole seconds.
pub fn to_secs(now_ms: u64) -> (r: u64)
    ensures
        r == secs(now_ms),
{
    now_ms / 1000
}

} // verus!
