//! Scheduled jobs.
use vstd::prelude::*;

verus! {

/// A scheduled job: its runner, and the listener that follows it where there is one.
#[derive(Debug, Clone, Copy, PartialEq, Eq, Structural)]
pub struct Cron {
    /// The number of the runner.
    pub inner: u64,
    /// The handle of the listener.
    pub cron_handle: Option<u64>,
}

/// What stopping a scheduled job takes, in this order.
#[derive(Debug, Clone, Copy, PartialEq, Eq, Structural)]
pub struct CronStop {
    /// The runner to stop.
    pub runner: u64,
    /// The listener to abort once the runner has stopped.
    pub aborted: Option<u64>,
}

impl Cron {
    /// Stops the job: its runner is stopped and its listener aborted.
    pub fn stop(&mut self) -> (r: CronStop)
        ensures
            r.runner == old(self).inner,
            r.aborted == old(self).cron_handle,
            *final(self) == *old(self),
    {
        CronStop { runner: self.inner, aborted: self.cron_handle }
    }
}

} // verus!
