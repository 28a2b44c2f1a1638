//! The supervisor: per-agent health, circuit breaking, backoff and
//! retry accounting, and the restart decision taken on each failure
//! report.

use vstd::prelude::*;
use crate::agent::{find_agent, AgentId};
use crate::backoff::{lcg_next, raw_delay, ExponentialBackoff};
use crate::circuit_breaker::{
    dispatch_allowed, fail_step, refresh_step, success_step, CircuitBreaker, CircuitState,
};
use crate::health_check::{HealthCheck, HealthStatus};
use crate::restart_policy::{RestartPolicy, RestartStrategy};

verus! {

/// What the supervisor asks the external process-lifecycle manager to
/// do after a failure report.
#[derive(Debug, Clone, Copy, PartialEq, Eq, Structural)]
pub enum RestartDecision {
    /// No restart is scheduled.
    NoRestart,
    /// Restart immediately.
    RestartNow,
    /// Restart after the given delay in seconds.
    RestartAfter(u64),
    /// Retries are exhausted; the agent is permanently failed.
    PermanentFailure,
}

/// The retry cap is set and the counter has reached it.
pub open spec fn retries_exhausted(max_retries: Option<u32>, retries: u32) -> bool {
    match max_retries {
        Option::Some(m) => retries >= m,
        Option::None => false,
    }
}

/// The decision a restart policy yields for one failure, given the
/// retry count so far, the agent's health status, and the backoff
/// delay that would apply.
pub open spec fn decision_spec(
    strategy: RestartStrategy,
    max_retries: Option<u32>,
    retries: u32,
    status: HealthStatus,
    delay: u64,
) -> RestartDecision {
    match strategy {
        RestartStrategy::Never => RestartDecision::NoRestart,
        RestartStrategy::Always => if retries_exhausted(max_retries, retries) {
            RestartDecision::PermanentFailure
        } else {
            RestartDecision::RestartNow
        },
        RestartStrategy::OnFailure => if !(status is Unhealthy) {
            RestartDecision::NoRestart
        } else if retries_exhausted(max_retries, retries) {
            RestartDecision::PermanentFailure
        } else {
            RestartDecision::RestartNow
        },
        RestartStrategy::ExponentialBackoff => if !(status is Unhealthy) {
            RestartDecision::NoRestart
        } else if retries_exhausted(max_retries, retries) {
            RestartDecision::PermanentFailure
        } else {
            RestartDecision::RestartAfter(delay)
        },
    }
}

/// The decision schedules a restart, now or delayed.
pub open spec fn schedules_restart(d: RestartDecision) -> bool {
    d is RestartNow || d is RestartAfter
}

/// Computes the restart decision for one failure without touching any
/// state: the policy's strategy applied to the retry count, the
/// agent's current status, and the delay that a backoff restart would
/// use.
pub fn restart_decision(
    policy: &RestartPolicy,
    retries: u32,
    status: HealthStatus,
    delay: u64,
) -> (d: RestartDecision)
    ensures
        d == decision_spec(policy.strategy, policy.max_retries, retries, status, delay),
{
    let exhausted = match policy.max_retries {
        Option::Some(m) => retries >= m,
        Option::None => false,
    };
    match policy.strategy {
        RestartStrategy::Never => RestartDecision::NoRestart,
        RestartStrategy::Always => if exhausted {
            RestartDecision::PermanentFailure
        } else {
            RestartDecision::RestartNow
        },
        RestartStrategy::OnFailure => if !matches!(status, HealthStatus::Unhealthy) {
            RestartDecision::NoRestart
        } else if exhausted {
            RestartDecision::PermanentFailure
        } else {
            RestartDecision::RestartNow
        },
        RestartStrategy::ExponentialBackoff => if !matches!(status, HealthStatus::Unhealthy) {
            RestartDecision::NoRestart
        } else if exhausted {
            RestartDecision::PermanentFailure
        } else {
            RestartDecision::RestartAfter(delay)
        },
    }
}

/// Under the Never strategy no restart is ever scheduled, whatever the
/// retry count, health status or delay.
pub proof fn lemma_never_no_restart(
    max_retries: Option<u32>,
    retries: u32,
    status: HealthStatus,
    delay: u64,
)
    ensures
        decision_spec(RestartStrategy::Never, max_retries, retries, status, delay)
            == RestartDecision::NoRestart,
{
}

/// Once the retry counter has reached a set cap, a further failure of
/// an unhealthy agent yields the permanent-failure signal, not another
/// restart, under every restart-seeking strategy.
pub proof fn lemma_retry_cap_permanent(strategy: RestartStrategy, m: u32, retries: u32, delay: u64)
    requires
        retries >= m,
        !(strategy is Never),
    ensures
        decision_spec(strategy, Option::Some(m), retries, HealthStatus::Unhealthy, delay)
            == RestartDecision::PermanentFailure,
{
}

/// The per-agent aggregate the supervisor keeps: health record,
/// circuit breaker, backoff calculator, and restart counter.
#[derive(Debug, Clone, Copy, PartialEq, Eq, Structural)]
pub struct AgentRecord {
    pub health: HealthCheck,
    pub breaker: CircuitBreaker,
    pub backoff: ExponentialBackoff,
    pub retries: u32,
}

/// The record a newly observed agent starts with: Unknown health, a
/// Closed breaker, and a backoff at attempt zero seeded from the
/// agent's identifier.
pub open spec fn fresh_record(
    policy: RestartPolicy,
    threshold: u32,
    cool_down: u64,
    factor: u64,
    max_delay: u64,
    jitter: bool,
    agent: AgentId,
) -> AgentRecord {
    AgentRecord {
        health: HealthCheck {
            status: HealthStatus::Unknown,
            last_check: Option::None,
            failures: 0,
        },
        breaker: CircuitBreaker {
            state: CircuitState::Closed,
            failures: 0,
            threshold,
            cool_down,
            last_transition: 0,
            trial_in_flight: false,
        },
        backoff: ExponentialBackoff {
            base: policy.backoff_seconds,
            factor,
            max_delay,
            attempt: 0,
            jitter,
            seed: agent.id,
        },
        retries: 0,
    }
}

/// A counter grown by one, stopping at the machine limit.
pub open spec fn saturating_inc(x: u32) -> u32 {
    if x < u32::MAX {
        (x + 1) as u32
    } else {
        u32::MAX
    }
}

/// How one failure report at time `now` takes an agent's record from
/// `pre` to `post` and yields decision `d`: the failure lands in the
/// health record and the breaker, the decision follows the policy
/// applied to the retry count so far, the backoff advances exactly
/// when a delayed restart is scheduled, and the retry counter grows
/// exactly when a restart is scheduled.
pub open spec fn failure_rel(
    pre: AgentRecord,
    post: AgentRecord,
    policy: RestartPolicy,
    now: u64,
    d: RestartDecision,
) -> bool {
    &&& post.health == (HealthCheck {
        status: HealthStatus::Unhealthy,
        last_check: Option::Some(now),
        failures: saturating_inc(pre.health.failures),
    })
    &&& post.breaker == fail_step(pre.breaker, now)
    &&& policy.strategy is Never ==> d == RestartDecision::NoRestart && post.backoff
        == pre.backoff
    &&& (policy.strategy is Always || policy.strategy is OnFailure) ==> d == (if retries_exhausted(
        policy.max_retries,
        pre.retries,
    ) {
        RestartDecision::PermanentFailure
    } else {
        RestartDecision::RestartNow
    }) && post.backoff == pre.backoff
    &&& policy.strategy is ExponentialBackoff ==> (if retries_exhausted(
        policy.max_retries,
        pre.retries,
    ) {
        d == RestartDecision::PermanentFailure && post.backoff == pre.backoff
    } else {
        (d matches RestartDecision::RestartAfter(del) && del <= pre.backoff.max_delay && (
        !pre.backoff.jitter ==> del == raw_delay(
            pre.backoff.base,
            pre.backoff.factor,
            pre.backoff.max_delay,
            pre.backoff.attempt as nat,
        ) && post.backoff.seed == pre.backoff.seed) && (pre.backoff.jitter ==> del >= raw_delay(
            pre.backoff.base,
            pre.backoff.factor,
            pre.backoff.max_delay,
            pre.backoff.attempt as nat,
        ) - raw_delay(
            pre.backoff.base,
            pre.backoff.factor,
            pre.backoff.max_delay,
            pre.backoff.attempt as nat,
        ) / 2 && post.backoff.seed == lcg_next(pre.backoff.seed))) && post.backoff.attempt
            == saturating_inc(pre.backoff.attempt) && post.backoff.base == pre.backoff.base
            && post.backoff.factor == pre.backoff.factor && post.backoff.max_delay
            == pre.backoff.max_delay && post.backoff.jitter == pre.backoff.jitter
    })
    &&& post.retries == if schedules_restart(d) {
        saturating_inc(pre.retries)
    } else {
        pre.retries
    }
}

/// How one successful health observation at time `now` takes an
/// agent's record from `pre` to `post`: health resets, the breaker
/// takes a success, and the backoff and retry counters reset.
pub open spec fn success_rel(pre: AgentRecord, post: AgentRecord, now: u64) -> bool {
    &&& post.health == (HealthCheck {
        status: HealthStatus::Healthy,
        last_check: Option::Some(now),
        failures: 0,
    })
    &&& post.breaker == success_step(pre.breaker, now)
    &&& post.backoff == (ExponentialBackoff { attempt: 0, ..pre.backoff })
    &&& post.retries == 0
}

/// `a` is one of the first `n` agents and its refreshed breaker
/// forbids dispatch.
pub open spec fn is_blocked_agent(
    a: AgentId,
    agents: Seq<AgentId>,
    records: Seq<AgentRecord>,
    now: u64,
    n: int,
) -> bool {
    exists|j: int|
        0 <= j < n && a == #[trigger] agents[j] && !dispatch_allowed(
            refresh_step(records[j].breaker, now),
        )
}

/// Every element of `r` is one of the first `n` agents and its
/// refreshed breaker forbids dispatch.
pub open spec fn all_blocked_members(
    r: Seq<AgentId>,
    agents: Seq<AgentId>,
    records: Seq<AgentRecord>,
    now: u64,
    n: int,
) -> bool {
    forall|k: int|
        0 <= k < r.len() ==> #[trigger] is_blocked_agent(r[k], agents, records, now, n)
}

/// Health monitoring, circuit breaking and restart orchestration for
/// a set of agents, one record per agent.
#[derive(Debug)]
pub struct Supervisor {
    pub policy: RestartPolicy,
    pub breaker_threshold: u32,
    pub breaker_cool_down: u64,
    pub backoff_factor: u64,
    pub backoff_max: u64,
    pub backoff_jitter: bool,
    pub agents: Vec<AgentId>,
    pub records: Vec<AgentRecord>,
}

impl Supervisor {
    /// One record per agent, distinct agents, usable configuration,
    /// and every breaker and backoff internally consistent.
    pub open spec fn wf(self) -> bool {
        &&& self.records@.len() == self.agents@.len()
        &&& self.breaker_threshold >= 1
        &&& self.backoff_factor >= 1
        &&& forall|i: int, j: int|
            0 <= i < j < self.agents@.len() ==> self.agents@[i] != self.agents@[j]
        &&& forall|i: int|
            0 <= i < self.records@.len() ==> (#[trigger] self.records@[i]).breaker.wf()
                && self.records@[i].backoff.wf()
    }

    /// The record the supervisor creates for a newly observed agent.
    pub open spec fn fresh_for(self, agent: AgentId) -> AgentRecord {
        fresh_record(
            self.policy,
            self.breaker_threshold,
            self.breaker_cool_down,
            self.backoff_factor,
            self.backoff_max,
            self.backoff_jitter,
            agent,
        )
    }

    /// The configuration fields are unchanged.
    pub open spec fn same_config(self, other: Supervisor) -> bool {
        &&& other.policy == self.policy
        &&& other.breaker_threshold == self.breaker_threshold
        &&& other.breaker_cool_down == self.breaker_cool_down
        &&& other.backoff_factor == self.backoff_factor
        &&& other.backoff_max == self.backoff_max
        &&& other.backoff_jitter == self.backoff_jitter
    }

    /// Creates a supervisor with no agents under the given restart
    /// policy, breaker configuration and backoff configuration.
    pub fn new(
        policy: RestartPolicy,
        breaker_threshold: u32,
        breaker_cool_down: u64,
        backoff_factor: u64,
        backoff_max: u64,
        backoff_jitter: bool,
    ) -> (r: Self)
        requires
            breaker_threshold >= 1,
            backoff_factor >= 1,
        ensures
            r.wf(),
            r.policy == policy,
            r.breaker_threshold == breaker_threshold,
            r.breaker_cool_down == breaker_cool_down,
            r.backoff_factor == backoff_factor,
            r.backoff_max == backoff_max,
            r.backoff_jitter == backoff_jitter,
            r.agents@.len() == 0,
    {
        Supervisor {
            policy,
            breaker_threshold,
            breaker_cool_down,
            backoff_factor,
            backoff_max,
            backoff_jitter,
            agents: Vec::new(),
            records: Vec::new(),
        }
    }

    /// Builds the fresh record for `agent`.
    fn make_record(&self, agent: AgentId) -> (rec: AgentRecord)
        requires
            self.breaker_threshold >= 1,
            self.backoff_factor >= 1,
        ensures
            rec == self.fresh_for(agent),
            rec.breaker.wf(),
            rec.backoff.wf(),
    {
        AgentRecord {
            health: HealthCheck::new(),
            breaker: CircuitBreaker::new(self.breaker_threshold, self.breaker_cool_down),
            backoff: ExponentialBackoff::new(
                self.policy.backoff_seconds,
                self.backoff_factor,
                self.backoff_max,
                self.backoff_jitter,
                agent.id,
            ),
            retries: 0,
        }
    }

    /// Registers an agent with a fresh record; no effect when the
    /// agent is already known.
    pub fn register_agent(&mut self, agent: AgentId)
        requires
            old(self).wf(),
        ensures
            final(self).wf(),
            old(self).same_config(*final(self)),
            old(self).agents@.contains(agent) ==> final(self).agents@ == old(self).agents@
                && final(self).records@ == old(self).records@,
            !old(self).agents@.contains(agent) ==> final(self).agents@ == old(self).agents@.push(
                agent,
            ) && final(self).records@ == old(self).records@.push(old(self).fresh_for(agent)),
    {
        if find_agent(&self.agents, agent).is_none() {
            let rec = self.make_record(agent);
            self.agents.push(agent);
            self.records.push(rec);
        }
    }

    /// Handles the failure report for `agent` at time `now` as one
    /// transaction: records the failure in the agent's health record
    /// and breaker, consults the restart policy, advances the backoff
    /// for a delayed restart, counts a scheduled restart, and returns
    /// the decision. An unknown agent is registered first.
    pub fn report_failure(&mut self, agent: AgentId, now: u64) -> (d: RestartDecision)
        requires
            old(self).wf(),
        ensures
            final(self).wf(),
            old(self).same_config(*final(self)),
            old(self).agents@.contains(agent) ==> final(self).agents@ == old(self).agents@ && (
            exists|i: int|
                0 <= i < old(self).agents@.len() && old(self).agents@[i] == agent && failure_rel(
                    old(self).records@[i],
                    #[trigger] final(self).records@[i],
                    old(self).policy,
                    now,
                    d,
                ) && (forall|j: int|
                    0 <= j < old(self).records@.len() && j != i ==> final(self).records@[j] == old(
                        self,
                    ).records@[j])),
            !old(self).agents@.contains(agent) ==> final(self).agents@ == old(self).agents@.push(
                agent,
            ) && final(self).records@.len() == old(self).records@.len() + 1 && failure_rel(
                old(self).fresh_for(agent),
                final(self).records@[old(self).records@.len() as int],
                old(self).policy,
                now,
                d,
            ) && (forall|j: int|
                0 <= j < old(self).records@.len() ==> final(self).records@[j] == old(
                    self,
                ).records@[j]),
    {
        let idx: usize = match find_agent(&self.agents, agent) {
            Option::Some(i) => i,
            Option::None => {
                let rec = self.make_record(agent);
                self.agents.push(agent);
                self.records.push(rec);
                self.agents.len() - 1
            },
        };
        let rec = &mut self.records[idx];
        rec.health.record_unhealthy(now);
        rec.breaker.record_failure(now);
        let exhausted = match self.policy.max_retries {
            Option::Some(m) => rec.retries >= m,
            Option::None => false,
        };
        let d = match self.policy.strategy {
            RestartStrategy::Never => RestartDecision::NoRestart,
            RestartStrategy::Always => if exhausted {
                RestartDecision::PermanentFailure
            } else {
                RestartDecision::RestartNow
            },
            RestartStrategy::OnFailure => if exhausted {
                RestartDecision::PermanentFailure
            } else {
                RestartDecision::RestartNow
            },
            RestartStrategy::ExponentialBackoff => if exhausted {
                RestartDecision::PermanentFailure
            } else {
                let del = rec.backoff.next_delay();
                RestartDecision::RestartAfter(del)
            },
        };
        if matches!(d, RestartDecision::RestartNow | RestartDecision::RestartAfter(_)) {
            if rec.retries < u32::MAX {
                rec.retries = rec.retries + 1;
            }
        }
        d
    }

    /// Handles a successful health observation for `agent` at time
    /// `now`: health becomes Healthy, the breaker takes the success
    /// (closing a HalfOpen circuit), and the retry counter and backoff
    /// reset. An unknown agent is registered first.
    pub fn report_success(&mut self, agent: AgentId, now: u64)
        requires
            old(self).wf(),
        ensures
            final(self).wf(),
            old(self).same_config(*final(self)),
            old(self).agents@.contains(agent) ==> final(self).agents@ == old(self).agents@ && (
            exists|i: int|
                0 <= i < old(self).agents@.len() && old(self).agents@[i] == agent && success_rel(
                    old(self).records@[i],
                    #[trigger] final(self).records@[i],
                    now,
                ) && (forall|j: int|
                    0 <= j < old(self).records@.len() && j != i ==> final(self).records@[j] == old(
                        self,
                    ).records@[j])),
            !old(self).agents@.contains(agent) ==> final(self).agents@ == old(self).agents@.push(
                agent,
            ) && final(self).records@.len() == old(self).records@.len() + 1 && success_rel(
                old(self).fresh_for(agent),
                final(self).records@[old(self).records@.len() as int],
                now,
            ) && (forall|j: int|
                0 <= j < old(self).records@.len() ==> final(self).records@[j] == old(
                    self,
                ).records@[j]),
    {
        let idx: usize = match find_agent(&self.agents, agent) {
            Option::Some(i) => i,
            Option::None => {
                let rec = self.make_record(agent);
                self.agents.push(agent);
                self.records.push(rec);
                self.agents.len() - 1
            },
        };
        let rec = &mut self.records[idx];
        rec.health.record_healthy(now);
        rec.breaker.record_success(now);
        rec.backoff.reset();
        rec.retries = 0;
    }

    /// Applies the breaker cool-down rule for every agent at time
    /// `now` and returns the agents to which dispatch is currently
    /// forbidden: exactly those whose refreshed breaker disallows it.
    pub fn blocked_agents(&mut self, now: u64) -> (r: Vec<AgentId>)
        requires
            old(self).wf(),
        ensures
            final(self).wf(),
            old(self).same_config(*final(self)),
            final(self).agents@ == old(self).agents@,
            final(self).records@.len() == old(self).records@.len(),
            forall|i: int|
                0 <= i < old(self).records@.len() ==> #[trigger] final(self).records@[i]
                    == (AgentRecord {
                    breaker: refresh_step(old(self).records@[i].breaker, now),
                    ..old(self).records@[i]
                }),
            forall|i: int|
                0 <= i < old(self).agents@.len() ==> (r@.contains(#[trigger] old(self).agents@[i])
                    <==> !dispatch_allowed(refresh_step(old(self).records@[i].breaker, now))),
            all_blocked_members(
                r@,
                old(self).agents@,
                old(self).records@,
                now,
                old(self).agents@.len() as int,
            ),
    {
        let n = self.records.len();
        let mut r: Vec<AgentId> = Vec::new();
        let mut i: usize = 0;
        while i < n
            invariant
                old(self).wf(),
                n == self.records@.len(),
                i <= n,
                old(self).same_config(*self),
                self.agents@ == old(self).agents@,
                self.records@.len() == old(self).records@.len(),
                forall|j: int|
                    i <= j < n ==> #[trigger] self.records@[j] == old(self).records@[j],
                forall|j: int|
                    0 <= j < i ==> #[trigger] self.records@[j] == (AgentRecord {
                        breaker: refresh_step(old(self).records@[j].breaker, now),
                        ..old(self).records@[j]
                    }),
                forall|j: int|
                    0 <= j < i ==> (r@.contains(#[trigger] old(self).agents@[j])
                        <==> !dispatch_allowed(refresh_step(old(self).records@[j].breaker, now))),
                all_blocked_members(r@, old(self).agents@, old(self).records@, now, i as int),
            decreases n - i,
        {
            let ghost r_pre = r@;
            let rec = &mut self.records[i];
            rec.breaker.refresh(now);
            let allowed = rec.breaker.allows_dispatch();
            if !allowed {
                r.push(self.agents[i]);
            }
            proof {
                let gi = i as int;
                let ag = old(self).agents@;
                let blocked_at = |j: int|
                    !dispatch_allowed(refresh_step(old(self).records@[j].breaker, now));
                assert(allowed == !blocked_at(gi));
                let rs = old(self).records@;
                assert forall|k: int| 0 <= k < r@.len() implies is_blocked_agent(
                    r@[k],
                    ag,
                    rs,
                    now,
                    gi + 1,
                ) by {
                    if k < r_pre.len() {
                        assert(r@[k] == r_pre[k]);
                        assert(all_blocked_members(r_pre, ag, rs, now, gi));
                        assert(is_blocked_agent(r_pre[k], ag, rs, now, gi));
                        let j = choose|j: int|
                            0 <= j < gi && r_pre[k] == ag[j] && !dispatch_allowed(
                                refresh_step(rs[j].breaker, now),
                            );
                        assert(0 <= j < gi + 1 && r@[k] == ag[j] && !dispatch_allowed(
                            refresh_step(rs[j].breaker, now),
                        ));
                    } else {
                        assert(r@[k] == ag[gi] && !dispatch_allowed(
                            refresh_step(rs[gi].breaker, now),
                        ));
                    }
                }
                assert(all_blocked_members(r@, ag, rs, now, gi + 1));
                assert forall|j: int| 0 <= j < gi + 1 implies (r@.contains(#[trigger] ag[j])
                    <==> !dispatch_allowed(refresh_step(old(self).records@[j].breaker, now))) by {
                    if j < gi {
                        if blocked_at(j) {
                            assert(r_pre.contains(ag[j]));
                            let k = choose|k: int| 0 <= k < r_pre.len() && r_pre[k] == ag[j];
                            assert(r@[k] == ag[j]);
                        } else if r@.contains(ag[j]) {
                            let k = choose|k: int| 0 <= k < r@.len() && r@[k] == ag[j];
                            if k < r_pre.len() {
                                assert(r_pre[k] == ag[j]);
                                assert(r_pre.contains(ag[j]));
                                assert(false);
                            } else {
                                assert(r@[k] == ag[gi]);
                                assert(ag[j] == ag[gi]);
                                assert(false);
                            }
                        }
                    } else {
                        if blocked_at(gi) {
                            assert(r@[r@.len() - 1] == ag[gi]);
                        } else if r@.contains(ag[gi]) {
                            let k = choose|k: int| 0 <= k < r@.len() && r@[k] == ag[gi];
                            assert(r_pre[k] == ag[gi]);
                            assert(all_blocked_members(r_pre, ag, old(self).records@, now, gi));
                            assert(is_blocked_agent(r_pre[k], ag, old(self).records@, now, gi));
                            let j2 = choose|j2: int|
                                0 <= j2 < gi && r_pre[k] == ag[j2] && !dispatch_allowed(
                                    refresh_step(old(self).records@[j2].breaker, now),
                                );
                            assert(ag[j2] == ag[gi]);
                            assert(false);
                        }
                    }
                }
            }
            i = i + 1;
        }
        r
    }

    /// Marks the HalfOpen trial dispatch of `agent`'s breaker as
    /// taken; no effect for an unknown agent or in any other breaker
    /// state.
    pub fn note_dispatch(&mut self, agent: AgentId)
        requires
            old(self).wf(),
        ensures
            final(self).wf(),
            old(self).same_config(*final(self)),
            final(self).agents@ == old(self).agents@,
            final(self).records@.len() == old(self).records@.len(),
            forall|i: int|
                0 <= i < old(self).records@.len() && old(self).agents@[i] != agent
                    ==> #[trigger] final(self).records@[i] == old(self).records@[i],
            forall|i: int|
                0 <= i < old(self).records@.len() && old(self).agents@[i] == agent
                    ==> #[trigger] final(self).records@[i] == (AgentRecord {
                    breaker: if old(self).records@[i].breaker.state is HalfOpen {
                        CircuitBreaker { trial_in_flight: true, ..old(self).records@[i].breaker }
                    } else {
                        old(self).records@[i].breaker
                    },
                    ..old(self).records@[i]
                }),
    {
        if let Option::Some(i) = find_agent(&self.agents, agent) {
            let rec = &mut self.records[i];
            rec.breaker.note_dispatch();
        }
    }

    /// The breaker state of `agent`, `None` for an unknown agent.
    pub fn breaker_state(&self, agent: AgentId) -> (r: Option<CircuitState>)
        requires
            self.wf(),
        ensures
            r is None <==> !self.agents@.contains(agent),
            r matches Some(st) ==> exists|i: int|
                0 <= i < self.agents@.len() && self.agents@[i] == agent && st == (
                #[trigger] self.records@[i]).breaker.state,
    {
        match find_agent(&self.agents, agent) {
            Option::Some(i) => Option::Some(self.records[i].breaker.state()),
            Option::None => Option::None,
        }
    }

    /// The health record of `agent`, `None` for an unknown agent.
    pub fn health_of(&self, agent: AgentId) -> (r: Option<HealthCheck>)
        requires
            self.wf(),
        ensures
            r is None <==> !self.agents@.contains(agent),
            r matches Some(h) ==> exists|i: int|
                0 <= i < self.agents@.len() && self.agents@[i] == agent && h == (
                #[trigger] self.records@[i]).health,
    {
        match find_agent(&self.agents, agent) {
            Option::Some(i) => Option::Some(self.records[i].health),
            Option::None => Option::None,
        }
    }

    /// The restart counter of `agent`, `None` for an unknown agent.
    pub fn retries_of(&self, agent: AgentId) -> (r: Option<u32>)
        requires
            self.wf(),
        ensures
            r is None <==> !self.agents@.contains(agent),
            r matches Some(n) ==> exists|i: int|
                0 <= i < self.agents@.len() && self.agents@[i] == agent && n == (
                #[trigger] self.records@[i]).retries,
    {
        match find_agent(&self.agents, agent) {
            Option::Some(i) => Option::Some(self.records[i].retries),
            Option::None => Option::None,
        }
    }
}

} // verus!
