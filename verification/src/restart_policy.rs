//! Restart configuration: when a failed agent is restarted, how many
//! times, and with what base backoff.

use vstd::prelude::*;

verus! {

/// How the supervisor reacts to an agent failure.
#[derive(Debug, Clone, Copy, PartialEq, Eq, Structural)]
pub enum RestartStrategy {
    /// Never restart.
    Never,
    /// Restart unconditionally.
    Always,
    /// Restart only while the agent is marked Unhealthy.
    OnFailure,
    /// As OnFailure, but delayed by an exponentially growing backoff.
    ExponentialBackoff,
}

/// Strategy plus optional retry cap (`None` = unlimited) and the base
/// backoff delay in seconds. Immutable configuration.
#[derive(Debug, Clone, Copy, PartialEq, Eq, Structural)]
pub struct RestartPolicy {
    pub strategy: RestartStrategy,
    pub max_retries: Option<u32>,
    pub backoff_seconds: u64,
}

impl RestartPolicy {
    /// Creates a policy with unlimited retries and a one-second base
    /// backoff.
    pub fn new(strategy: RestartStrategy) -> (r: Self)
        ensures
            r.strategy == strategy,
            r.max_retries is None,
            r.backoff_seconds == 1,
    {
        RestartPolicy { strategy, max_retries: Option::None, backoff_seconds: 1 }
    }

    /// Caps the number of restarts per agent.
    pub fn with_max_retries(self, retries: u32) -> (r: Self)
        ensures
            r.strategy == self.strategy,
            r.max_retries == Option::Some(retries),
            r.backoff_seconds == self.backoff_seconds,
    {
        let mut p = self;
        p.max_retries = Option::Some(retries);
        p
    }

    /// Sets the base backoff delay in seconds.
    pub fn with_backoff_seconds(self, seconds: u64) -> (r: Self)
        ensures
            r.strategy == self.strategy,
            r.max_retries == self.max_retries,
            r.backoff_seconds == seconds,
    {
        let mut p = self;
        p.backoff_seconds = seconds;
        p
    }

    /// The restart strategy.
    pub fn strategy(&self) -> (r: RestartStrategy)
        ensures
            r == self.strategy,
    {
        self.strategy
    }

    /// The retry cap, `None` meaning unlimited.
    pub fn max_retries(&self) -> (r: Option<u32>)
        ensures
            r == self.max_retries,
    {
        self.max_retries
    }

    /// The base backoff delay in seconds.
    pub fn backoff_seconds(&self) -> (r: u64)
        ensures
            r == self.backoff_seconds,
    {
        self.backoff_seconds
    }
}

impl Default for RestartPolicy {
    /// Restart on failure, unlimited retries, one-second base backoff.
    fn default() -> (r: Self)
        ensures
            r.strategy == RestartStrategy::OnFailure,
            r.max_retries is None,
            r.backoff_seconds == 1,
    {
        RestartPolicy::new(RestartStrategy::OnFailure)
    }
}

} // verus!
