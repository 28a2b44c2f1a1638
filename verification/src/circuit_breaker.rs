//! Per-agent failure isolation: a circuit breaker gating whether new
//! tasks may be dispatched to an agent.
//!
//! Transitions: Closed -> Open when `threshold` consecutive failures
//! accumulate; Open -> HalfOpen once the cool-down has elapsed;
//! HalfOpen -> Closed on a successful trial, HalfOpen -> Open on a
//! failed one. Only the supervisor mutates a breaker; the scheduler
//! only reads it.

use vstd::prelude::*;

verus! {

/// Dispatch gate state of one agent's circuit.
#[derive(Debug, Clone, Copy, PartialEq, Eq, Structural)]
pub enum CircuitState {
    /// Normal operation; dispatch allowed.
    Closed,
    /// Dispatch forbidden until the cool-down elapses.
    Open,
    /// One trial dispatch allowed to test recovery.
    HalfOpen,
}

/// Per-agent breaker: state, consecutive-failure count, configuration,
/// and the time of the last state transition.
#[derive(Debug, Clone, Copy, PartialEq, Eq, Structural)]
pub struct CircuitBreaker {
    pub state: CircuitState,
    pub failures: u32,
    pub threshold: u32,
    pub cool_down: u64,
    pub last_transition: u64,
    pub trial_in_flight: bool,
}

/// Effect of one reported failure.
pub open spec fn fail_step(b: CircuitBreaker, now: u64) -> CircuitBreaker {
    match b.state {
        CircuitState::Closed => if b.failures + 1 >= b.threshold {
            CircuitBreaker {
                state: CircuitState::Open,
                failures: (b.failures + 1) as u32,
                last_transition: now,
                trial_in_flight: false,
                ..b
            }
        } else {
            CircuitBreaker { failures: (b.failures + 1) as u32, ..b }
        },
        CircuitState::Open => b,
        CircuitState::HalfOpen => CircuitBreaker {
            state: CircuitState::Open,
            last_transition: now,
            trial_in_flight: false,
            ..b
        },
    }
}

/// Effect of one reported success.
pub open spec fn success_step(b: CircuitBreaker, now: u64) -> CircuitBreaker {
    match b.state {
        CircuitState::Closed => CircuitBreaker { failures: 0, ..b },
        CircuitState::Open => b,
        CircuitState::HalfOpen => CircuitBreaker {
            state: CircuitState::Closed,
            failures: 0,
            last_transition: now,
            trial_in_flight: false,
            ..b
        },
    }
}

/// Effect of observing the clock: an Open circuit whose cool-down has
/// elapsed moves to HalfOpen; everything else is unchanged.
pub open spec fn refresh_step(b: CircuitBreaker, now: u64) -> CircuitBreaker {
    if b.state is Open && now >= b.last_transition && now - b.last_transition >= b.cool_down {
        CircuitBreaker {
            state: CircuitState::HalfOpen,
            last_transition: now,
            trial_in_flight: false,
            ..b
        }
    } else {
        b
    }
}

/// Whether a dispatch to this agent is currently allowed: always in
/// Closed, never in Open, and in HalfOpen only while the single trial
/// has not yet been taken.
pub open spec fn dispatch_allowed(b: CircuitBreaker) -> bool {
    match b.state {
        CircuitState::Closed => true,
        CircuitState::Open => false,
        CircuitState::HalfOpen => !b.trial_in_flight,
    }
}

impl CircuitBreaker {
    /// Internal consistency: a usable threshold, a Closed circuit still
    /// below it, and a trial only while HalfOpen.
    pub open spec fn wf(self) -> bool {
        &&& self.threshold >= 1
        &&& self.state is Closed ==> self.failures < self.threshold
        &&& self.trial_in_flight ==> self.state is HalfOpen
    }

    /// Creates a Closed breaker with no recorded failures.
    pub fn new(threshold: u32, cool_down: u64) -> (r: Self)
        requires
            threshold >= 1,
        ensures
            r.wf(),
            r.state is Closed,
            r.failures == 0,
            r.threshold == threshold,
            r.cool_down == cool_down,
            r.last_transition == 0,
            !r.trial_in_flight,
    {
        CircuitBreaker {
            state: CircuitState::Closed,
            failures: 0,
            threshold,
            cool_down,
            last_transition: 0,
            trial_in_flight: false,
        }
    }

    /// Records a failure observed at time `now`.
    pub fn record_failure(&mut self, now: u64)
        requires
            old(self).wf(),
        ensures
            final(self).wf(),
            *final(self) == fail_step(*old(self), now),
    {
        match self.state {
            CircuitState::Closed => {
                self.failures = self.failures + 1;
                if self.failures >= self.threshold {
                    self.state = CircuitState::Open;
                    self.last_transition = now;
                    self.trial_in_flight = false;
                }
            },
            CircuitState::Open => {},
            CircuitState::HalfOpen => {
                self.state = CircuitState::Open;
                self.last_transition = now;
                self.trial_in_flight = false;
            },
        }
    }

    /// Records a success observed at time `now`.
    pub fn record_success(&mut self, now: u64)
        requires
            old(self).wf(),
        ensures
            final(self).wf(),
            *final(self) == success_step(*old(self), now),
    {
        match self.state {
            CircuitState::Closed => {
                self.failures = 0;
            },
            CircuitState::Open => {},
            CircuitState::HalfOpen => {
                self.state = CircuitState::Closed;
                self.failures = 0;
                self.last_transition = now;
                self.trial_in_flight = false;
            },
        }
    }

    /// Applies the cool-down rule at time `now`: Open becomes HalfOpen
    /// once `cool_down` has elapsed since the last transition.
    pub fn refresh(&mut self, now: u64)
        requires
            old(self).wf(),
        ensures
            final(self).wf(),
            *final(self) == refresh_step(*old(self), now),
    {
        if matches!(self.state, CircuitState::Open) && now >= self.last_transition && now
            - self.last_transition >= self.cool_down {
            self.state = CircuitState::HalfOpen;
            self.last_transition = now;
            self.trial_in_flight = false;
        }
    }

    /// Marks the HalfOpen trial dispatch as taken; no effect in any
    /// other state.
    pub fn note_dispatch(&mut self)
        requires
            old(self).wf(),
        ensures
            final(self).wf(),
            old(self).state is HalfOpen ==> *final(self) == (CircuitBreaker {
                trial_in_flight: true,
                ..*old(self)
            }),
            !(old(self).state is HalfOpen) ==> *final(self) == *old(self),
    {
        if matches!(self.state, CircuitState::HalfOpen) {
            self.trial_in_flight = true;
        }
    }

    /// The current state.
    pub fn state(&self) -> (r: CircuitState)
        ensures
            r == self.state,
    {
        self.state
    }

    /// The consecutive-failure count.
    pub fn failures(&self) -> (r: u32)
        ensures
            r == self.failures,
    {
        self.failures
    }

    /// Whether a dispatch to this agent is allowed right now.
    pub fn allows_dispatch(&self) -> (r: bool)
        ensures
            r == dispatch_allowed(*self),
    {
        match self.state {
            CircuitState::Closed => true,
            CircuitState::Open => false,
            CircuitState::HalfOpen => !self.trial_in_flight,
        }
    }
}

/// State after `k` consecutive failures all reported at time `now`.
pub open spec fn fails(b: CircuitBreaker, k: nat, now: u64) -> CircuitBreaker
    decreases k,
{
    if k == 0 {
        b
    } else {
        fail_step(fails(b, (k - 1) as nat, now), now)
    }
}

/// From a fresh Closed breaker, consecutive failures keep the circuit
/// Closed with an exact count while below the threshold, and exactly
/// the `threshold`-th failure transitions it to Open.
pub proof fn lemma_opens_at_exactly_threshold(b: CircuitBreaker, k: nat, now: u64)
    requires
        b.wf(),
        b.state is Closed,
        b.failures == 0,
        k <= b.threshold,
    ensures
        k < b.threshold ==> fails(b, k, now).state is Closed && fails(b, k, now).failures == k,
        k == b.threshold ==> fails(b, k, now).state is Open,
    decreases k,
{
    if k > 0 {
        lemma_opens_at_exactly_threshold(b, (k - 1) as nat, now);
        let prev = fails(b, (k - 1) as nat, now);
        assert(prev.state is Closed && prev.failures == k - 1);
        assert(prev.threshold == b.threshold) by {
            lemma_fails_keeps_config(b, (k - 1) as nat, now);
        }
        assert(fails(b, k, now) == fail_step(prev, now));
        if k < b.threshold {
            assert(fail_step(prev, now).state is Closed);
        } else {
            assert(fail_step(prev, now).state is Open);
        }
    } else {
        assert(fails(b, 0, now) == b);
    }
}

/// Consecutive failures never change a breaker's configuration.
pub proof fn lemma_fails_keeps_config(b: CircuitBreaker, k: nat, now: u64)
    ensures
        fails(b, k, now).threshold == b.threshold,
        fails(b, k, now).cool_down == b.cool_down,
    decreases k,
{
    if k > 0 {
        lemma_fails_keeps_config(b, (k - 1) as nat, now);
    }
}

/// An Open circuit never transitions directly to Closed: no single
/// event (failure, success, or cool-down expiry) takes it there; it
/// must pass through HalfOpen.
pub proof fn lemma_open_never_directly_closed(b: CircuitBreaker, now: u64)
    requires
        b.state is Open,
    ensures
        !(fail_step(b, now).state is Closed),
        !(success_step(b, now).state is Closed),
        !(refresh_step(b, now).state is Closed),
{
}

/// A success observed in HalfOpen always closes the circuit and resets
/// the failure count to zero.
pub proof fn lemma_half_open_success_resets(b: CircuitBreaker, now: u64)
    requires
        b.state is HalfOpen,
    ensures
        success_step(b, now).state is Closed,
        success_step(b, now).failures == 0,
{
}

} // verus!
