//! Cancellation state for an in-flight self-update download.
//!
//! The download loop itself (network reads, progress events, installer
//! launch) is I/O and lives in the embedding program; the program polls
//! this flag between chunks and aborts the download once it is set.

use vstd::prelude::*;

verus! {

/// Whether the user has asked for the current update download to stop.
pub struct UpdateState {
    cancelling: bool,
}

impl UpdateState {
    /// True when a cancel request has been recorded and not yet cleared.
    pub closed spec fn cancel_requested(&self) -> bool {
        self.cancelling
    }

    /// A fresh state: no cancel request pending.
    pub fn new() -> (s: Self)
        ensures
            !s.cancel_requested(),
    {
        UpdateState { cancelling: false }
    }

    /// Record a cancel request for the download in flight.
    pub fn request_cancel(&mut self)
        ensures
            final(self).cancel_requested(),
    {
        self.cancelling = true;
    }

    /// Clear any pending cancel request; called when a new download starts.
    pub fn reset(&mut self)
        ensures
            !final(self).cancel_requested(),
    {
        self.cancelling = false;
    }

    /// Poll the flag; the download loop stops as soon as this returns true.
    pub fn is_cancelling(&self) -> (r: bool)
        ensures
            r == self.cancel_requested(),
    {
        self.cancelling
    }
}

} // verus!
