//! Settings of the request-rate monitor.

use vstd::prelude::*;

verus! {

/// How the rate monitor counts and when sustained load is reported.
#[derive(Clone, Copy, Debug)]
pub struct RateMonitorConfig {
    /// Length of the trailing window, in seconds; one slot per second.
    pub window_secs: u64,
    /// Requests per window at or above which the fleet counts as loaded.
    pub threshold: usize,
    /// Whole seconds the load has to last before it is reported.
    pub sustained_secs: u64,
}

impl RateMonitorConfig {
    /// A window has at least one slot, and its slots can be indexed.
    pub open spec fn valid(&self) -> bool {
        1 <= self.window_secs <= usize::MAX
    }

    /// Tests `valid` at run time.
    pub fn is_valid(&self) -> (ok: bool)
        ensures
            ok == self.valid(),
    {
        self.window_secs >= 1 && self.window_secs <= usize::MAX as u64
    }
}

} // verus!
