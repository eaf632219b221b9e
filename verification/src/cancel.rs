//! The cancellation token: a single level-triggered flag, owned by the
//! caller of a run, polled by the shell's loop once per file.  A fresh or
//! reset token is not cancelled; a cancel request stays visible until the
//! token is reset at the start of the next run.

use vstd::prelude::*;

verus! {

/// A cooperative cancellation flag for one organize run.
pub struct CancelToken {
    cancelled: bool,
}

impl CancelToken {
    /// Whether cancellation has been requested.
    pub closed spec fn spec_cancelled(self) -> bool {
        self.cancelled
    }

    /// A fresh token, not cancelled.
    pub fn new() -> (t: CancelToken)
        ensures
            !t.spec_cancelled(),
    {
        CancelToken { cancelled: false }
    }

    /// Request cancellation of the run this token belongs to.
    pub fn request_cancel(&mut self)
        ensures
            final(self).spec_cancelled(),
    {
        self.cancelled = true;
    }

    /// Poll the flag.
    pub fn is_cancelled(&self) -> (r: bool)
        ensures
            r == self.spec_cancelled(),
    {
        self.cancelled
    }

    /// Clear the flag at the start of a new run.
    pub fn reset(&mut self)
        ensures
            !final(self).spec_cancelled(),
    {
        self.cancelled = false;
    }
}

} // verus!
