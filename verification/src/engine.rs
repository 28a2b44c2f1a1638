//! The scheduler engine: one of four interchangeable selection
//! strategies, chosen at construction from a `SchedulingPolicy`.

use vstd::prelude::*;
use crate::agent::AgentId;
use crate::fair_share::{fs_add_rel, fs_next_rel, fs_submit_rel, FairShareScheduler};
use crate::policy::{lookup_param, PolicyType, SchedulingPolicy};
use crate::priority::{pr_next_rel, pr_submit_rel, PriorityScheduler};
use crate::round_robin::{rr_add_rel, rr_next_rel, rr_submit_rel, RoundRobinScheduler};
use crate::task_queue::{pop_eligible_rel, Task, TaskQueue};

verus! {

/// Invalid configuration, rejected at construction time, never at
/// call time.
#[derive(Debug, Clone, Copy, PartialEq, Eq, Structural)]
pub enum ConfigError {
    /// The priority level count is zero or does not fit the level
    /// counter.
    InvalidPriorityLevels,
    /// A fair-share weight of zero.
    InvalidWeight,
}

/// The running state of one selection strategy.
#[derive(Debug)]
pub enum Strategy {
    /// A single FIFO queue.
    Fcfs(TaskQueue),
    /// Per-agent queues under a rotating cursor.
    RoundRobin(RoundRobinScheduler),
    /// Priority buckets, highest served first.
    Priority(PriorityScheduler),
    /// Weighted proportional service.
    FairShare(FairShareScheduler),
}

/// The number of priority buckets a policy configures: its `levels`
/// parameter, or five when the parameter is absent.
pub open spec fn configured_levels(params: Seq<(String, u64)>) -> int {
    match lookup_param(params, "levels"@) {
        Option::None => 5,
        Option::Some(v) => v as int,
    }
}

/// Policy-driven task scheduler: `submit` buckets tasks as the
/// strategy demands, `next` selects and removes the task to run.
#[derive(Debug)]
pub struct Scheduler {
    pub policy_type: PolicyType,
    pub strategy: Strategy,
}

impl Scheduler {
    /// The strategy matches the policy type and is internally
    /// consistent.
    pub open spec fn wf(self) -> bool {
        match self.strategy {
            Strategy::Fcfs(_) => self.policy_type == PolicyType::FCFS,
            Strategy::RoundRobin(rr) => self.policy_type == PolicyType::RoundRobin && rr.wf(),
            Strategy::Priority(p) => self.policy_type == PolicyType::Priority && p.wf(),
            Strategy::FairShare(fs) => self.policy_type == PolicyType::FairShare && fs.wf(),
        }
    }

    /// `submit` may run: the fair-share arrival counter has room.
    pub open spec fn can_accept(self) -> bool {
        match self.strategy {
            Strategy::FairShare(fs) => fs.next_stamp < u64::MAX,
            _ => true,
        }
    }

    /// Builds the strategy a policy names, empty of tasks. Fails
    /// exactly when a priority policy configures a level count of
    /// zero or one beyond the level counter's range.
    pub fn new(policy: &SchedulingPolicy) -> (r: Result<Scheduler, ConfigError>)
        ensures
            r is Err <==> policy.policy_type == PolicyType::Priority && !(1 <= configured_levels(
                policy.parameters@,
            ) <= u32::MAX),
            r matches Err(e) ==> e == ConfigError::InvalidPriorityLevels,
            r matches Ok(s) ==> s.wf() && s.policy_type == policy.policy_type && (match s.strategy {
                Strategy::Fcfs(q) => q@ == Seq::<Task>::empty(),
                Strategy::RoundRobin(rr) => rr.agents@.len() == 0 && rr.cursor == 0,
                Strategy::Priority(p) => p.levels == configured_levels(policy.parameters@) && (
                forall|b: int| 0 <= b < p.levels ==> #[trigger] p.buckets@[b]@ == Seq::<Task>::empty()),
                Strategy::FairShare(fs) => fs.agents@.len() == 0 && fs.next_stamp == 0,
            }),
    {
        match policy.policy_type() {
            PolicyType::FCFS => Result::Ok(
                Scheduler { policy_type: PolicyType::FCFS, strategy: Strategy::Fcfs(TaskQueue::new()) },
            ),
            PolicyType::RoundRobin => Result::Ok(
                Scheduler {
                    policy_type: PolicyType::RoundRobin,
                    strategy: Strategy::RoundRobin(RoundRobinScheduler::new()),
                },
            ),
            PolicyType::FairShare => Result::Ok(
                Scheduler {
                    policy_type: PolicyType::FairShare,
                    strategy: Strategy::FairShare(FairShareScheduler::new()),
                },
            ),
            PolicyType::Priority => {
                let key: String = "levels".to_owned();
                let levels: u64 = match policy.parameter(&key) {
                    Option::None => 5,
                    Option::Some(v) => v,
                };
                if levels == 0 || levels > 0xffff_ffff {
                    Result::Err(ConfigError::InvalidPriorityLevels)
                } else {
                    Result::Ok(
                        Scheduler {
                            policy_type: PolicyType::Priority,
                            strategy: Strategy::Priority(PriorityScheduler::new(levels as u32)),
                        },
                    )
                }
            },
        }
    }

    /// The policy type this scheduler runs.
    pub fn policy_type(&self) -> (r: PolicyType)
        ensures
            r == self.policy_type,
    {
        self.policy_type
    }

    /// Registers an agent, with a weight the fair-share strategy uses
    /// and the others ignore. A zero weight is invalid configuration.
    pub fn add_agent(&mut self, agent: AgentId, weight: u64) -> (r: Result<(), ConfigError>)
        requires
            old(self).wf(),
        ensures
            final(self).wf(),
            final(self).policy_type == old(self).policy_type,
            weight == 0 ==> r == Result::<(), ConfigError>::Err(ConfigError::InvalidWeight)
                && *final(self) == *old(self),
            weight >= 1 ==> r is Ok && (match old(self).strategy {
                Strategy::Fcfs(q0) => final(self).strategy matches Strategy::Fcfs(q1) && q1@
                    == q0@,
                Strategy::RoundRobin(r0) => final(self).strategy matches Strategy::RoundRobin(r1)
                    && rr_add_rel(r0, r1, agent),
                Strategy::Priority(p0) => final(self).strategy matches Strategy::Priority(p1) && p1
                    == p0,
                Strategy::FairShare(f0) => final(self).strategy matches Strategy::FairShare(f1)
                    && fs_add_rel(f0, f1, agent, weight),
            }),
    {
        if weight == 0 {
            return Result::Err(ConfigError::InvalidWeight);
        }
        match &mut self.strategy {
            Strategy::Fcfs(_) => {},
            Strategy::RoundRobin(rr) => rr.add_agent(agent),
            Strategy::Priority(_) => {},
            Strategy::FairShare(fs) => fs.add_agent(agent, weight),
        }
        Result::Ok(())
    }

    /// Inserts a task into the queue appropriate to it under the
    /// running strategy.
    pub fn submit(&mut self, task: Task)
        requires
            old(self).wf(),
            old(self).can_accept(),
        ensures
            final(self).wf(),
            final(self).policy_type == old(self).policy_type,
            match old(self).strategy {
                Strategy::Fcfs(q0) => final(self).strategy matches Strategy::Fcfs(q1) && q1@
                    == q0@.push(task),
                Strategy::RoundRobin(r0) => final(self).strategy matches Strategy::RoundRobin(r1)
                    && rr_submit_rel(r0, r1, task),
                Strategy::Priority(p0) => final(self).strategy matches Strategy::Priority(p1)
                    && pr_submit_rel(p0, p1, task),
                Strategy::FairShare(f0) => final(self).strategy matches Strategy::FairShare(f1)
                    && fs_submit_rel(f0, f1, task),
            },
    {
        match &mut self.strategy {
            Strategy::Fcfs(q) => q.push(task),
            Strategy::RoundRobin(rr) => rr.submit(task),
            Strategy::Priority(p) => p.submit(task),
            Strategy::FairShare(fs) => fs.submit(task),
        }
    }

    /// Selects and removes the next task to run, considering only
    /// agents outside the blocked set. `None` means no eligible work:
    /// a normal outcome, not an error.
    pub fn next(&mut self, blocked: &Vec<AgentId>) -> (r: Option<Task>)
        requires
            old(self).wf(),
        ensures
            final(self).wf(),
            final(self).policy_type == old(self).policy_type,
            match old(self).strategy {
                Strategy::Fcfs(q0) => final(self).strategy matches Strategy::Fcfs(q1)
                    && pop_eligible_rel(q0@, q1@, blocked@, r),
                Strategy::RoundRobin(r0) => final(self).strategy matches Strategy::RoundRobin(r1)
                    && rr_next_rel(r0, r1, blocked@, r),
                Strategy::Priority(p0) => final(self).strategy matches Strategy::Priority(p1)
                    && pr_next_rel(p0, p1, blocked@, r),
                Strategy::FairShare(f0) => final(self).strategy matches Strategy::FairShare(f1)
                    && fs_next_rel(f0, f1, blocked@, r),
            },
    {
        match &mut self.strategy {
            Strategy::Fcfs(q) => q.pop_first_eligible(blocked),
            Strategy::RoundRobin(rr) => rr.next(blocked),
            Strategy::Priority(p) => p.next(blocked),
            Strategy::FairShare(fs) => fs.next(blocked),
        }
    }
}

} // verus!
