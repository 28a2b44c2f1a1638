//! Fair-share scheduling: each agent has a weight, and the scheduler
//! serves the eligible agent with the lowest ratio of dispatched tasks
//! to weight, breaking ties by earliest enqueue.

use vstd::prelude::*;
use crate::agent::{find_agent, AgentId};
use crate::task_queue::Task;

verus! {

/// A task together with the global enqueue stamp it received on
/// submission; stamps order tasks by arrival across all queues.
#[derive(Debug, Clone, Copy, PartialEq, Eq, Structural)]
pub struct StampedTask {
    pub stamp: u64,
    pub task: Task,
}

/// Agent 1 is served before agent 2: its dispatched/weight ratio is
/// strictly lower (compared by cross-multiplication), or the ratios tie
/// and agent 1's front task arrived earlier.
pub open spec fn fs_prefers(d1: u64, w1: u64, s1: u64, d2: u64, w2: u64, s2: u64) -> bool {
    d1 * w2 < d2 * w1 || (d1 * w2 == d2 * w1 && s1 < s2)
}

/// Weighted proportional-service scheduler.
#[derive(Debug)]
pub struct FairShareScheduler {
    pub agents: Vec<AgentId>,
    pub weights: Vec<u64>,
    pub dispatched: Vec<u64>,
    pub queues: Vec<Vec<StampedTask>>,
    pub next_stamp: u64,
}

impl FairShareScheduler {
    /// Parallel per-agent records, positive weights, distinct agents,
    /// stamps below the counter, increasing within a queue, distinct
    /// across queues, and dispatch counts consistent with the number
    /// of stamps handed out.
    pub open spec fn wf(self) -> bool {
        &&& self.weights@.len() == self.agents@.len()
        &&& self.dispatched@.len() == self.agents@.len()
        &&& self.queues@.len() == self.agents@.len()
        &&& forall|i: int, j: int|
            0 <= i < j < self.agents@.len() ==> self.agents@[i] != self.agents@[j]
        &&& forall|i: int| 0 <= i < self.weights@.len() ==> #[trigger] self.weights@[i] >= 1
        &&& forall|i: int|
            0 <= i < self.queues@.len() ==> (#[trigger] self.dispatched@[i])
                + self.queues@[i]@.len() <= self.next_stamp
        &&& forall|i: int, j: int|
            0 <= i < self.queues@.len() && 0 <= j < self.queues@[i]@.len()
                ==> #[trigger] self.queues@[i]@[j].stamp < self.next_stamp
        &&& forall|i1: int, j1: int, i2: int, j2: int|
            0 <= i1 < self.queues@.len() && 0 <= j1 < self.queues@[i1]@.len() && 0 <= i2
                < self.queues@.len() && 0 <= j2 < self.queues@[i2]@.len() ==> ((i1 == i2 && j1
                < j2) ==> #[trigger] self.queues@[i1]@[j1].stamp < #[trigger] self.queues@[i2]@[j2].stamp)
                && (i1 != i2 ==> self.queues@[i1]@[j1].stamp != self.queues@[i2]@[j2].stamp)
    }

    /// Agent `i` can be served: it has a pending task and is not
    /// blocked.
    pub open spec fn candidate(self, blocked: Seq<AgentId>, i: int) -> bool {
        &&& 0 <= i < self.queues@.len()
        &&& self.queues@[i]@.len() > 0
        &&& !blocked.contains(self.agents@[i])
    }

    /// Agent `sel` is the one served next: a candidate preferred over
    /// every other candidate.
    pub open spec fn selection(self, blocked: Seq<AgentId>, sel: int) -> bool {
        &&& self.candidate(blocked, sel)
        &&& forall|j: int|
            #[trigger] self.candidate(blocked, j) && j != sel ==> fs_prefers(
                self.dispatched@[sel],
                self.weights@[sel],
                self.queues@[sel]@[0].stamp,
                self.dispatched@[j],
                self.weights@[j],
                self.queues@[j]@[0].stamp,
            )
    }

    /// Creates a scheduler with no agents.
    pub fn new() -> (r: Self)
        ensures
            r.wf(),
            r.agents@.len() == 0,
            r.next_stamp == 0,
    {
        FairShareScheduler {
            agents: Vec::new(),
            weights: Vec::new(),
            dispatched: Vec::new(),
            queues: Vec::new(),
            next_stamp: 0,
        }
    }

    /// Registers an agent with the given weight, or updates the weight
    /// of an agent already registered. A zero weight is invalid
    /// configuration and is rejected by contract.
    pub fn add_agent(&mut self, agent: AgentId, weight: u64)
        requires
            old(self).wf(),
            weight >= 1,
        ensures
            final(self).wf(),
            fs_add_rel(*old(self), *final(self), agent, weight),
    {
        match find_agent(&self.agents, agent) {
            Option::Some(i) => {
                self.weights.set(i, weight);
            },
            Option::None => {
                self.agents.push(agent);
                self.weights.push(weight);
                self.dispatched.push(0);
                self.queues.push(Vec::new());
            },
        }
    }

    /// Enqueues a task at the back of its agent's queue with the next
    /// arrival stamp, registering a new agent with weight one. The
    /// stamp counter must not have exhausted the machine word.
    pub fn submit(&mut self, task: Task)
        requires
            old(self).wf(),
            old(self).next_stamp < u64::MAX,
        ensures
            final(self).wf(),
            fs_submit_rel(*old(self), *final(self), task),
    {
        let entry = StampedTask { stamp: self.next_stamp, task };
        match find_agent(&self.agents, task.agent_id) {
            Option::Some(i) => {
                let q = &mut self.queues[i];
                q.push(entry);
            },
            Option::None => {
                self.agents.push(task.agent_id);
                self.weights.push(1);
                self.dispatched.push(0);
                let mut q: Vec<StampedTask> = Vec::new();
                q.push(entry);
                proof {
                    assert(q@ =~= seq![entry]);
                }
                self.queues.push(q);
            },
        }
        self.next_stamp = self.next_stamp + 1;
    }

    /// Serves the preferred candidate: pops the front of its queue,
    /// counts the dispatch, and returns the task. `None` (and no
    /// change) when no agent is a candidate. Dispatch counts only ever
    /// grow here.
    pub fn next(&mut self, blocked: &Vec<AgentId>) -> (r: Option<Task>)
        requires
            old(self).wf(),
        ensures
            final(self).wf(),
            fs_next_rel(*old(self), *final(self), blocked@, r),
    {
        let n = self.queues.len();
        let mut best: usize = n;
        let mut i: usize = 0;
        while i < n
            invariant
                old(self).wf(),
                *self == *old(self),
                n == self.queues@.len(),
                i <= n,
                best <= n,
                best == n ==> forall|j: int| 0 <= j < i ==> !old(self).candidate(blocked@, j),
                best < n ==> best < i,
                best < n ==> old(self).candidate(blocked@, best as int) && forall|j: int|
                    0 <= j < i && #[trigger] old(self).candidate(blocked@, j) && j != best
                        ==> fs_prefers(
                        self.dispatched@[best as int],
                        self.weights@[best as int],
                        self.queues@[best as int]@[0].stamp,
                        self.dispatched@[j],
                        self.weights@[j],
                        self.queues@[j]@[0].stamp,
                    ),
            decreases n - i,
        {
            let is_cand = self.queues[i].len() > 0 && !crate::task_queue::contains_agent(
                blocked,
                self.agents[i],
            );
            if is_cand {
                if best == n {
                    best = i;
                } else {
                    let di = self.dispatched[i];
                    let wi = self.weights[i];
                    let si = self.queues[i][0].stamp;
                    let db = self.dispatched[best];
                    let wb = self.weights[best];
                    let sb = self.queues[best][0].stamp;
                    proof {
                        assert((di as u128) * (wb as u128) < 0x100000000000000000000000000000000)
                            by (nonlinear_arith)
                            requires
                                di <= u64::MAX,
                                wb <= u64::MAX,
                        ;
                        assert((db as u128) * (wi as u128) < 0x100000000000000000000000000000000)
                            by (nonlinear_arith)
                            requires
                                db <= u64::MAX,
                                wi <= u64::MAX,
                        ;
                    }
                    let cross_i: u128 = (di as u128) * (wb as u128);
                    let cross_b: u128 = (db as u128) * (wi as u128);
                    if cross_i < cross_b || (cross_i == cross_b && si < sb) {
                        proof {
                            let gb = best as int;
                            let gi = i as int;
                            assert forall|j: int|
                                0 <= j < gi && #[trigger] old(self).candidate(blocked@, j) && j
                                    != gi implies fs_prefers(
                                self.dispatched@[gi],
                                self.weights@[gi],
                                self.queues@[gi]@[0].stamp,
                                self.dispatched@[j],
                                self.weights@[j],
                                self.queues@[j]@[0].stamp,
                            ) by {
                                if j != gb {
                                    lemma_fs_prefers_trans(
                                        self.dispatched@[gi],
                                        self.weights@[gi],
                                        self.queues@[gi]@[0].stamp,
                                        self.dispatched@[gb],
                                        self.weights@[gb],
                                        self.queues@[gb]@[0].stamp,
                                        self.dispatched@[j],
                                        self.weights@[j],
                                        self.queues@[j]@[0].stamp,
                                    );
                                }
                            }
                        }
                        best = i;
                    } else {
                        proof {
                            // fronts of two distinct non-empty queues carry
                            // distinct stamps, so the preference is total
                            assert(old(self).queues@[i as int]@[0].stamp != old(self).queues@[best as int]@[0].stamp);
                        }
                    }
                }
            }
            i = i + 1;
        }
        if best == n {
            return Option::None;
        }
        let ghost sel = best as int;
        let entry = {
            let q = &mut self.queues[best];
            q.remove(0)
        };
        let newd = self.dispatched[best] + 1;
        self.dispatched.set(best, newd);
        proof {
            assert(old(self).selection(blocked@, sel));
            let pre = *old(self);
            assert forall|i1: int, j1: int, i2: int, j2: int|
                0 <= i1 < self.queues@.len() && 0 <= j1 < self.queues@[i1]@.len() && 0 <= i2
                    < self.queues@.len() && 0 <= j2 < self.queues@[i2]@.len() implies ((i1 == i2
                && j1 < j2) ==> #[trigger] self.queues@[i1]@[j1].stamp
                < #[trigger] self.queues@[i2]@[j2].stamp) && (i1 != i2
                ==> self.queues@[i1]@[j1].stamp != self.queues@[i2]@[j2].stamp) by {
                let p1 = if i1 == sel {
                    j1 + 1
                } else {
                    j1
                };
                let p2 = if i2 == sel {
                    j2 + 1
                } else {
                    j2
                };
                assert(self.queues@[i1]@[j1] == pre.queues@[i1]@[p1]);
                assert(self.queues@[i2]@[j2] == pre.queues@[i2]@[p2]);
            }
        }
        Option::Some(entry.task)
    }

    /// Resets every dispatch count to zero; the only operation that
    /// ever lowers them.
    pub fn reset_counts(&mut self)
        requires
            old(self).wf(),
        ensures
            final(self).wf(),
            final(self).agents@ == old(self).agents@,
            final(self).weights@ == old(self).weights@,
            final(self).queues@ == old(self).queues@,
            final(self).next_stamp == old(self).next_stamp,
            final(self).dispatched@.len() == old(self).dispatched@.len(),
            forall|i: int|
                0 <= i < old(self).dispatched@.len() ==> #[trigger] final(self).dispatched@[i]
                    == 0,
    {
        let n = self.dispatched.len();
        let mut i: usize = 0;
        while i < n
            invariant
                old(self).wf(),
                self.wf(),
                n == self.dispatched@.len(),
                i <= n,
                self.agents@ == old(self).agents@,
                self.weights@ == old(self).weights@,
                self.queues@ == old(self).queues@,
                self.next_stamp == old(self).next_stamp,
                self.dispatched@.len() == old(self).dispatched@.len(),
                forall|j: int| 0 <= j < i ==> #[trigger] self.dispatched@[j] == 0,
                forall|j: int|
                    i <= j < n ==> #[trigger] self.dispatched@[j] == old(self).dispatched@[j],
            decreases n - i,
        {
            let ghost pre_d = self.dispatched@;
            self.dispatched.set(i, 0);
            proof {
                assert forall|a: int| 0 <= a < self.queues@.len() implies (
                self.dispatched@[a]) + self.queues@[a]@.len() <= self.next_stamp by {
                    assert(pre_d[a] + self.queues@[a]@.len() <= self.next_stamp);
                    if a == i as int {
                        assert(self.dispatched@[a] == 0);
                    } else {
                        assert(self.dispatched@[a] == pre_d[a]);
                    }
                }
            }
            i = i + 1;
        }
    }
}

/// How `add_agent` relates the scheduler before (`pre`) and after
/// (`post`): a new agent gets an empty queue and a zero dispatch
/// count; a known agent only has its weight updated.
pub open spec fn fs_add_rel(
    pre: FairShareScheduler,
    post: FairShareScheduler,
    agent: AgentId,
    weight: u64,
) -> bool {
    &&& post.next_stamp == pre.next_stamp
    &&& pre.agents@.contains(agent) ==> post.agents@ == pre.agents@ && (exists|i: int|
        0 <= i < pre.agents@.len() && pre.agents@[i] == agent && post.weights@
            == pre.weights@.update(i, weight)) && post.dispatched@ == pre.dispatched@
        && post.queues@ == pre.queues@
    &&& !pre.agents@.contains(agent) ==> post.agents@ == pre.agents@.push(agent) && post.weights@
        == pre.weights@.push(weight) && post.dispatched@ == pre.dispatched@.push(0)
        && post.queues@.len() == pre.queues@.len() + 1 && (forall|i: int|
        0 <= i < pre.queues@.len() ==> #[trigger] post.queues@[i]@ == pre.queues@[i]@)
        && post.queues@[pre.queues@.len() as int]@.len() == 0
}

/// How `submit` relates the scheduler before (`pre`) and after
/// (`post`): the task, stamped with the arrival counter, lands at the
/// back of its agent's queue, the agent being registered with weight
/// one when new; dispatch counts do not change.
pub open spec fn fs_submit_rel(pre: FairShareScheduler, post: FairShareScheduler, task: Task) -> bool {
    &&& post.next_stamp == pre.next_stamp + 1
    &&& post.dispatched@ == if pre.agents@.contains(task.agent_id) {
        pre.dispatched@
    } else {
        pre.dispatched@.push(0)
    }
    &&& pre.agents@.contains(task.agent_id) ==> post.agents@ == pre.agents@ && post.weights@
        == pre.weights@ && (exists|i: int|
        0 <= i < pre.agents@.len() && pre.agents@[i] == task.agent_id && post.queues@[i]@
            == pre.queues@[i]@.push((StampedTask { stamp: pre.next_stamp, task })) && (forall|
            j: int,
        |
            0 <= j < pre.queues@.len() && j != i ==> #[trigger] post.queues@[j]@
                == pre.queues@[j]@))
    &&& !pre.agents@.contains(task.agent_id) ==> post.agents@ == pre.agents@.push(task.agent_id)
        && post.weights@ == pre.weights@.push(1) && (forall|j: int|
        0 <= j < pre.queues@.len() ==> #[trigger] post.queues@[j]@ == pre.queues@[j]@)
        && post.queues@.len() == pre.queues@.len() + 1 && post.queues@[pre.queues@.len() as int]@
        == seq![(StampedTask { stamp: pre.next_stamp, task })]
}

/// How `next` relates the scheduler before (`pre`) and after (`post`):
/// `None` exactly when no agent is a candidate; otherwise the
/// preferred candidate's queue loses its front task and only that
/// agent's dispatch count grows, by one.
pub open spec fn fs_next_rel(
    pre: FairShareScheduler,
    post: FairShareScheduler,
    blocked: Seq<AgentId>,
    r: Option<Task>,
) -> bool {
    &&& post.agents@ == pre.agents@
    &&& post.weights@ == pre.weights@
    &&& post.next_stamp == pre.next_stamp
    &&& post.queues@.len() == pre.queues@.len()
    &&& r is None ==> (forall|i: int|
        0 <= i < pre.queues@.len() ==> !pre.candidate(blocked, i)) && post.dispatched@
        == pre.dispatched@ && (forall|i: int|
        0 <= i < pre.queues@.len() ==> #[trigger] post.queues@[i]@ == pre.queues@[i]@)
    &&& r matches Some(t) ==> exists|sel: int|
        pre.selection(blocked, sel) && t == pre.queues@[sel]@[0].task && post.dispatched@
            == pre.dispatched@.update(sel, (pre.dispatched@[sel] + 1) as u64) && post.queues@[sel]@
            == pre.queues@[sel]@.remove(0) && (forall|j: int|
            0 <= j < pre.queues@.len() && j != sel ==> #[trigger] post.queues@[j]@
                == pre.queues@[j]@)
}

/// The preference order is transitive.
pub proof fn lemma_fs_prefers_trans(
    d1: u64,
    w1: u64,
    s1: u64,
    d2: u64,
    w2: u64,
    s2: u64,
    d3: u64,
    w3: u64,
    s3: u64,
)
    requires
        w1 >= 1,
        w2 >= 1,
        w3 >= 1,
        fs_prefers(d1, w1, s1, d2, w2, s2),
        fs_prefers(d2, w2, s2, d3, w3, s3),
    ensures
        fs_prefers(d1, w1, s1, d3, w3, s3),
{
    assert((d1 * w3 < d3 * w1) || (d1 * w3 == d3 * w1 && s1 < s3)) by (nonlinear_arith)
        requires
            w1 >= 1,
            w2 >= 1,
            w3 >= 1,
            (d1 * w2 < d2 * w1) || (d1 * w2 == d2 * w1 && s1 < s2),
            (d2 * w3 < d3 * w2) || (d2 * w3 == d3 * w2 && s2 < s3),
    ;
}

/// Under weights `w1`, `w2` the fair-share rule keeps the weighted
/// dispatch difference `d1*w2 - d2*w1` within `[-w1, w2]` across any
/// selection it can make when both agents stay candidates, so the
/// dispatch ratio `d1 : d2` tracks `w1 : w2` within a bounded
/// tolerance over any run.
pub proof fn lemma_fair_share_ratio_bound(d1: u64, w1: u64, d2: u64, w2: u64)
    requires
        w1 >= 1,
        w2 >= 1,
        -(w1 as int) <= d1 * w2 - d2 * w1 <= w2 as int,
    ensures
        d1 * w2 <= d2 * w1 ==> -(w1 as int) <= (d1 + 1) * w2 - d2 * w1 <= w2 as int,
        d2 * w1 <= d1 * w2 ==> -(w1 as int) <= d1 * w2 - (d2 + 1) * w1 <= w2 as int,
{
    assert((d1 + 1) * w2 == d1 * w2 + w2) by (nonlinear_arith);
    assert((d2 + 1) * w1 == d2 * w1 + w1) by (nonlinear_arith);
}

} // verus!
