//! A cross-platform event synchronization primitive: a boolean signal with
//! manual- or auto-reset semantics, plus group waits that block until any
//! one, or all, of a collection of events become signaled.

mod event;
mod group;
mod laws;
mod sync;

pub use event::Event;
pub use group::{
    all_target, wait_for_all, wait_for_all_until, wait_for_all_with, wait_for_any,
    wait_for_any_until, wait_for_any_with,
};
pub use laws::{lemma_all_mode_needs_every_event, lemma_all_notified_reaches_target, mask_credit};
pub use sync::{duration_in_range, duration_representable};

use vstd::prelude::*;

verus! {

/// Outcome of a timed wait: records whether the wait ended because the
/// deadline elapsed rather than because the wait condition was satisfied.
#[derive(Copy, Clone, Debug, PartialEq, Eq, Structural)]
pub struct WaitTimeoutResult {
    timed_out: bool,
}

impl WaitTimeoutResult {
    /// The flag carried by this result.
    pub closed spec fn spec_timed_out(&self) -> bool {
        self.timed_out
    }

    /// True when the most recent wait returned due to deadline expiry.
    pub fn timed_out(&self) -> (r: bool)
        ensures
            r == self.spec_timed_out(),
    {
        self.timed_out
    }

    pub(crate) fn from_flag(b: bool) -> (r: WaitTimeoutResult)
        ensures
            r.spec_timed_out() == b,
    {
        WaitTimeoutResult { timed_out: b }
    }
}

} // verus!
