//! Per-agent liveness record, driven by an external probing mechanism.

use vstd::prelude::*;

verus! {

/// Liveness of an agent as last observed.
#[derive(Debug, Clone, Copy, PartialEq, Eq, Structural)]
pub enum HealthStatus {
    /// The last probe succeeded.
    Healthy,
    /// The last probe failed.
    Unhealthy,
    /// No probe outcome has been recorded yet; the only valid initial
    /// state.
    Unknown,
}

/// Record of an agent's current status, the time of the last
/// observation, and the count of consecutive failed probes.
#[derive(Debug, Clone, Copy, PartialEq, Eq, Structural)]
pub struct HealthCheck {
    pub status: HealthStatus,
    pub last_check: Option<u64>,
    pub failures: u32,
}

impl HealthCheck {
    /// Creates a record in the `Unknown` state with no failures.
    pub fn new() -> (r: Self)
        ensures
            r.status == HealthStatus::Unknown,
            r.last_check is None,
            r.failures == 0,
    {
        HealthCheck { status: HealthStatus::Unknown, last_check: Option::None, failures: 0 }
    }

    /// Records a successful probe at time `now`: status becomes Healthy
    /// and the consecutive-failure counter resets to zero.
    pub fn record_healthy(&mut self, now: u64)
        ensures
            final(self).status == HealthStatus::Healthy,
            final(self).last_check == Option::Some(now),
            final(self).failures == 0,
    {
        self.status = HealthStatus::Healthy;
        self.last_check = Option::Some(now);
        self.failures = 0;
    }

    /// Records a failed probe at time `now`: status becomes Unhealthy
    /// and the consecutive-failure counter grows by one (saturating at
    /// the machine limit).
    pub fn record_unhealthy(&mut self, now: u64)
        ensures
            final(self).status == HealthStatus::Unhealthy,
            final(self).last_check == Option::Some(now),
            final(self).failures == if old(self).failures < u32::MAX {
                old(self).failures + 1
            } else {
                u32::MAX as int
            },
    {
        self.status = HealthStatus::Unhealthy;
        self.last_check = Option::Some(now);
        if self.failures < u32::MAX {
            self.failures = self.failures + 1;
        }
    }

    /// The current status.
    pub fn status(&self) -> (r: HealthStatus)
        ensures
            r == self.status,
    {
        self.status
    }

    /// The count of consecutive failed probes.
    pub fn failures(&self) -> (r: u32)
        ensures
            r == self.failures,
    {
        self.failures
    }

    /// True exactly when the current status is Healthy.
    pub fn is_healthy(&self) -> (r: bool)
        ensures
            r == (self.status == HealthStatus::Healthy),
    {
        matches!(self.status, HealthStatus::Healthy)
    }
}

impl Default for HealthCheck {
    /// A record in the `Unknown` state with no failures.
    fn default() -> (r: Self)
        ensures
            r.status == HealthStatus::Unknown,
            r.last_check is None,
            r.failures == 0,
    {
        HealthCheck::new()
    }
}

} // verus!
