//! Round-robin scheduling: one FIFO queue per agent, served in a fixed
//! cyclic order by a rotating cursor.

use vstd::prelude::*;
use crate::agent::{find_agent, AgentId};
use crate::task_queue::{Task, TaskQueue};

verus! {

/// Cyclic index: `i - n` when `i` has run past the end, for
/// `0 <= i < 2n`.
pub open spec fn wrap_index(i: int, n: int) -> int {
    if i < n {
        i
    } else {
        i - n
    }
}

/// The contents of each queue, as sequences of tasks.
pub open spec fn queue_views(qs: Seq<TaskQueue>) -> Seq<Seq<Task>> {
    qs.map_values(|q: TaskQueue| q@)
}

/// Queue `idx` can be served: it holds a task and its agent is not
/// blocked.
pub open spec fn rr_ready(
    queues: Seq<Seq<Task>>,
    agents: Seq<AgentId>,
    blocked: Seq<AgentId>,
    idx: int,
) -> bool {
    queues[idx].len() > 0 && !blocked.contains(agents[idx])
}

/// Offset `k` from the cursor is the one a round-robin scheduler
/// serves: the first ready queue met while walking the cycle from the
/// cursor.
pub open spec fn rr_selection(
    queues: Seq<Seq<Task>>,
    agents: Seq<AgentId>,
    blocked: Seq<AgentId>,
    cursor: int,
    k: int,
) -> bool {
    let n = queues.len() as int;
    &&& 0 <= k < n
    &&& rr_ready(queues, agents, blocked, wrap_index(cursor + k, n))
    &&& forall|k2: int|
        0 <= k2 < k ==> !rr_ready(queues, agents, blocked, #[trigger] wrap_index(cursor + k2, n))
}

/// Scheduler rotating a cursor across per-agent FIFO queues.
#[derive(Debug)]
pub struct RoundRobinScheduler {
    pub agents: Vec<AgentId>,
    pub queues: Vec<TaskQueue>,
    pub cursor: usize,
}

impl RoundRobinScheduler {
    /// One queue per agent, distinct agents, cursor inside the cycle.
    pub open spec fn wf(self) -> bool {
        &&& self.queues@.len() == self.agents@.len()
        &&& self.agents@.len() == 0 ==> self.cursor == 0
        &&& self.agents@.len() > 0 ==> self.cursor < self.agents@.len()
        &&& forall|i: int, j: int|
            0 <= i < j < self.agents@.len() ==> self.agents@[i] != self.agents@[j]
    }

    /// Creates a scheduler with no agents.
    pub fn new() -> (r: Self)
        ensures
            r.wf(),
            r.agents@.len() == 0,
            r.cursor == 0,
    {
        RoundRobinScheduler { agents: Vec::new(), queues: Vec::new(), cursor: 0 }
    }

    /// Registers an agent with an empty queue; no effect when the
    /// agent is already registered.
    pub fn add_agent(&mut self, agent: AgentId)
        requires
            old(self).wf(),
        ensures
            final(self).wf(),
            rr_add_rel(*old(self), *final(self), agent),
    {
        if find_agent(&self.agents, agent).is_none() {
            self.agents.push(agent);
            self.queues.push(TaskQueue::new());
        }
    }

    /// Enqueues a task at the back of its agent's queue, registering
    /// the agent first when it is new.
    pub fn submit(&mut self, task: Task)
        requires
            old(self).wf(),
        ensures
            final(self).wf(),
            rr_submit_rel(*old(self), *final(self), task),
    {
        match find_agent(&self.agents, task.agent_id) {
            Option::Some(i) => {
                let q = &mut self.queues[i];
                q.push(task);
            },
            Option::None => {
                self.agents.push(task.agent_id);
                let mut q = TaskQueue::new();
                q.push(task);
                proof {
                    assert(q@ =~= seq![task]);
                }
                self.queues.push(q);
            },
        }
    }

    /// Serves the first ready queue meeting the cursor while walking
    /// the cycle once, pops its front task, and advances the cursor
    /// just past the served queue; skipped queues (blocked or empty)
    /// are passed over. `None` (and no change) when no queue is ready.
    pub fn next(&mut self, blocked: &Vec<AgentId>) -> (r: Option<Task>)
        requires
            old(self).wf(),
        ensures
            final(self).wf(),
            rr_next_rel(*old(self), *final(self), blocked@, r),
    {
        let ghost qv = queue_views(old(self).queues@);
        let n = self.queues.len();
        if n == 0 {
            return Option::None;
        }
        let mut k: usize = 0;
        let mut idx: usize = self.cursor;
        while k < n
            invariant
                old(self).wf(),
                self.agents@ == old(self).agents@,
                self.cursor == old(self).cursor,
                forall|j: int| 0 <= j < self.queues@.len() ==> #[trigger] self.queues@[j]@ == old(self).queues@[j]@,
                n == self.queues@.len(),
                n == self.agents@.len(),
                n > 0,
                qv == queue_views(old(self).queues@),
                qv.len() == n,
                k <= n,
                idx == wrap_index(self.cursor + k, n as int),
                0 <= idx < n,
                forall|k2: int|
                    0 <= k2 < k ==> !rr_ready(qv, old(self).agents@, blocked@, #[trigger] wrap_index(old(self).cursor + k2, n as int)),
            decreases n - k,
        {
            let ready = {
                let q = &self.queues[idx];
                !q.is_empty() && !crate::task_queue::contains_agent(blocked, self.agents[idx])
            };
            proof {
                assert(qv[idx as int] == old(self).queues@[idx as int]@);
            }
            if ready {
                let ghost gk = k as int;
                let q = &mut self.queues[idx];
                let t = q.pop();
                self.cursor = if idx + 1 < n {
                    idx + 1
                } else {
                    0
                };
                proof {
                    assert(rr_selection(qv, old(self).agents@, blocked@, old(self).cursor as int, gk));
                }
                return t;
            }
            k = k + 1;
            idx = if idx + 1 < n {
                idx + 1
            } else {
                0
            };
        }
        proof {
            assert(forall|i: int| 0 <= i < n ==> !rr_ready(qv, old(self).agents@, blocked@, i))
                by {
                assert forall|i: int| 0 <= i < n implies !rr_ready(
                    qv,
                    old(self).agents@,
                    blocked@,
                    i,
                ) by {
                    let c = old(self).cursor as int;
                    let k2 = if i >= c {
                        i - c
                    } else {
                        i + n - c
                    };
                    assert(wrap_index(c + k2, n as int) == i);
                    assert(!rr_ready(qv, old(self).agents@, blocked@, wrap_index(c + k2, n as int)));
                }
            }
        }
        Option::None
    }
}

/// How `add_agent` relates the scheduler before (`pre`) and after
/// (`post`).
pub open spec fn rr_add_rel(pre: RoundRobinScheduler, post: RoundRobinScheduler, agent: AgentId) -> bool {
    &&& post.cursor == pre.cursor
    &&& pre.agents@.contains(agent) ==> post.agents@ == pre.agents@ && (forall|i: int|
        0 <= i < pre.queues@.len() ==> #[trigger] post.queues@[i]@ == pre.queues@[i]@)
    &&& !pre.agents@.contains(agent) ==> post.agents@ == pre.agents@.push(agent)
        && post.queues@.len() == pre.queues@.len() + 1 && (forall|i: int|
        0 <= i < pre.queues@.len() ==> #[trigger] post.queues@[i]@ == pre.queues@[i]@)
        && post.queues@[pre.queues@.len() as int]@ == Seq::<Task>::empty()
}

/// How `submit` relates the scheduler before (`pre`) and after
/// (`post`): the task lands at the back of its agent's queue, the
/// agent being registered first when new, and nothing else moves.
pub open spec fn rr_submit_rel(pre: RoundRobinScheduler, post: RoundRobinScheduler, task: Task) -> bool {
    &&& post.cursor == pre.cursor
    &&& pre.agents@.contains(task.agent_id) ==> post.agents@ == pre.agents@ && (exists|i: int|
        0 <= i < pre.agents@.len() && pre.agents@[i] == task.agent_id && post.queues@[i]@
            == pre.queues@[i]@.push(task) && (forall|j: int|
            0 <= j < pre.queues@.len() && j != i ==> #[trigger] post.queues@[j]@
                == pre.queues@[j]@))
    &&& !pre.agents@.contains(task.agent_id) ==> post.agents@ == pre.agents@.push(task.agent_id)
        && post.queues@.len() == pre.queues@.len() + 1 && (forall|j: int|
        0 <= j < pre.queues@.len() ==> #[trigger] post.queues@[j]@ == pre.queues@[j]@)
        && post.queues@[pre.queues@.len() as int]@ == seq![task]
}

/// How `next` relates the scheduler before (`pre`) and after (`post`):
/// `None` exactly when no queue is ready; otherwise the first ready
/// queue on the cycle from the cursor loses its front task and the
/// cursor stops just past it.
pub open spec fn rr_next_rel(
    pre: RoundRobinScheduler,
    post: RoundRobinScheduler,
    blocked: Seq<AgentId>,
    r: Option<Task>,
) -> bool {
    &&& post.agents@ == pre.agents@
    &&& post.queues@.len() == pre.queues@.len()
    &&& r is None ==> (forall|idx: int|
        0 <= idx < pre.queues@.len() ==> !rr_ready(
            queue_views(pre.queues@),
            pre.agents@,
            blocked,
            idx,
        )) && post.cursor == pre.cursor && (forall|j: int|
        0 <= j < pre.queues@.len() ==> #[trigger] post.queues@[j]@ == pre.queues@[j]@)
    &&& r matches Some(t) ==> exists|k: int|
        rr_selection(queue_views(pre.queues@), pre.agents@, blocked, pre.cursor as int, k) && (0
            <= wrap_index(pre.cursor + k, pre.queues@.len() as int) < pre.queues@.len()) && t
            == pre.queues@[wrap_index(pre.cursor + k, pre.queues@.len() as int)]@[0]
            && post.queues@[wrap_index(pre.cursor + k, pre.queues@.len() as int)]@
            == pre.queues@[wrap_index(pre.cursor + k, pre.queues@.len() as int)]@.remove(0) && (
        forall|j: int|
            0 <= j < pre.queues@.len() && j != wrap_index(pre.cursor + k, pre.queues@.len() as int)
                ==> #[trigger] post.queues@[j]@ == pre.queues@[j]@) && post.cursor == wrap_index(
            wrap_index(pre.cursor + k, pre.queues@.len() as int) + 1,
            pre.queues@.len() as int,
        )
}

/// The queue a full round-robin cycle serves at its `j`-th step,
/// starting from cursor `c0` over `n` queues.
pub open spec fn rr_cycle_pick(c0: int, n: int, j: int) -> int {
    wrap_index(c0 + j, n)
}

/// One model step of a full cycle: the queue at `idx` loses its front
/// task.
pub open spec fn rr_model_pop(queues: Seq<Seq<Task>>, idx: int) -> Seq<Seq<Task>> {
    queues.update(idx, queues[idx].drop_first())
}

/// The queues after the first `j` steps of a full cycle from cursor
/// `c0`, each step serving the next cycle pick.
pub open spec fn rr_run_queues(queues: Seq<Seq<Task>>, c0: int, j: nat) -> Seq<Seq<Task>>
    decreases j,
{
    if j == 0 {
        queues
    } else {
        rr_model_pop(
            rr_run_queues(queues, c0, (j - 1) as nat),
            rr_cycle_pick(c0, queues.len() as int, j - 1),
        )
    }
}

/// A queue that no step of the first `j` cycle picks serves is
/// untouched by the run.
pub proof fn lemma_rr_run_unserved(queues: Seq<Seq<Task>>, c0: int, j: nat, q: int)
    requires
        0 <= c0 < queues.len(),
        j <= queues.len(),
        0 <= q < queues.len(),
        forall|t: int| 0 <= t < j ==> #[trigger] rr_cycle_pick(c0, queues.len() as int, t) != q,
    ensures
        rr_run_queues(queues, c0, j).len() == queues.len(),
        rr_run_queues(queues, c0, j)[q] == queues[q],
    decreases j,
{
    if j > 0 {
        lemma_rr_run_unserved(queues, c0, (j - 1) as nat, q);
    }
}

/// Fairness by cycle, over a run: starting from cursor `c0` with every
/// queue non-empty and eligible, the `j`-th of `n` consecutive
/// selections serves exactly the queue `rr_cycle_pick(c0, n, j)` (the
/// cursor's own queue, at offset zero), and the cursor then stands on
/// the next cycle pick. With `lemma_round_robin_fair_cycle` the picks
/// are a permutation of the queues, so every ready queue yields
/// exactly one task within `n` calls.
pub proof fn lemma_round_robin_serves_each_once(
    queues: Seq<Seq<Task>>,
    agents: Seq<AgentId>,
    blocked: Seq<AgentId>,
    c0: int,
    j: int,
)
    requires
        agents.len() == queues.len(),
        0 <= c0 < queues.len(),
        0 <= j < queues.len(),
        forall|q: int|
            0 <= q < queues.len() ==> (#[trigger] queues[q]).len() > 0 && !blocked.contains(
                agents[q],
            ),
    ensures
        rr_selection(
            rr_run_queues(queues, c0, j as nat),
            agents,
            blocked,
            rr_cycle_pick(c0, queues.len() as int, j),
            0,
        ),
        wrap_index(rr_cycle_pick(c0, queues.len() as int, j) + 1, queues.len() as int)
            == rr_cycle_pick(c0, queues.len() as int, j + 1),
{
    let n = queues.len() as int;
    let pick = rr_cycle_pick(c0, n, j);
    lemma_round_robin_fair_cycle(c0, n);
    assert(forall|t: int|
        0 <= t < j ==> #[trigger] rr_cycle_pick(c0, n, t) != pick);
    lemma_rr_run_unserved(queues, c0, j as nat, pick);
    let state = rr_run_queues(queues, c0, j as nat);
    assert(state[pick] == queues[pick]);
    assert(0 <= pick < n);
    assert(wrap_index(pick + 0, n) == pick);
    assert(rr_ready(state, agents, blocked, pick));
}

/// When the queue under the cursor is ready, a round-robin selection
/// serves exactly the cursor's queue (offset zero), so the cursor then
/// advances by one: skipping happens only past queues that are not
/// ready.
pub proof fn lemma_rr_serves_cursor(
    queues: Seq<Seq<Task>>,
    agents: Seq<AgentId>,
    blocked: Seq<AgentId>,
    cursor: int,
    k: int,
)
    requires
        0 <= cursor < queues.len(),
        rr_ready(queues, agents, blocked, cursor),
        rr_selection(queues, agents, blocked, cursor, k),
    ensures
        k == 0,
        wrap_index(cursor + k, queues.len() as int) == cursor,
{
    let n = queues.len() as int;
    if k > 0 {
        assert(wrap_index(cursor + 0, n) == cursor);
        assert(!rr_ready(queues, agents, blocked, wrap_index(cursor + 0, n)));
    }
}

/// Fairness by cycle: over `n` consecutive selections starting at
/// cursor `c0`, the served positions `c0, c0+1, ...` (wrapping once)
/// are pairwise distinct and cover every queue, so each of `n` ready
/// queues yields exactly one task within `n` calls.
/// Some step of the cycle from `c0` over `n` queues serves queue `q`.
pub open spec fn rr_cycle_covers(c0: int, n: int, q: int) -> bool {
    exists|j: int| 0 <= j < n && rr_cycle_pick(c0, n, j) == q
}

pub proof fn lemma_round_robin_fair_cycle(c0: int, n: int)
    requires
        0 <= c0 < n,
    ensures
        forall|j: int| 0 <= j < n ==> 0 <= #[trigger] rr_cycle_pick(c0, n, j) < n,
        forall|i: int, j: int|
            0 <= i < j < n ==> rr_cycle_pick(c0, n, i) != rr_cycle_pick(c0, n, j),
        forall|q: int| 0 <= q < n ==> #[trigger] rr_cycle_covers(c0, n, q),
{
    assert forall|q: int| 0 <= q < n implies #[trigger] rr_cycle_covers(c0, n, q) by {
        let j = if q >= c0 {
            q - c0
        } else {
            q + n - c0
        };
        assert(rr_cycle_pick(c0, n, j) == q);
    }
}

} // verus!
