//! Tasks and the FIFO task queue.

use vstd::prelude::*;
use crate::agent::AgentId;

verus! {

/// A unit of work bound to one agent, with a priority (larger is more
/// urgent). Immutable once enqueued.
#[derive(Debug, Clone, Copy, PartialEq, Eq, Structural)]
pub struct Task {
    pub agent_id: AgentId,
    pub priority: u32,
}

impl Task {
    /// Creates a task for `agent_id` with the given priority.
    pub fn new(agent_id: AgentId, priority: u32) -> (r: Self)
        ensures
            r.agent_id == agent_id,
            r.priority == priority,
    {
        Task { agent_id, priority }
    }

    /// The agent the task targets.
    pub fn agent_id(&self) -> (r: &AgentId)
        ensures
            *r == self.agent_id,
    {
        &self.agent_id
    }

    /// The task's priority.
    pub fn priority(&self) -> (r: u32)
        ensures
            r == self.priority,
    {
        self.priority
    }
}

/// A task is eligible when its agent is not in the blocked set (the set
/// of agents whose circuit breaker is open).
pub open spec fn eligible(t: Task, blocked: Seq<AgentId>) -> bool {
    !blocked.contains(t.agent_id)
}

/// Ordered holding area for pending tasks; pop order is FIFO.
#[derive(Debug)]
pub struct TaskQueue {
    pub tasks: Vec<Task>,
}

impl View for TaskQueue {
    type V = Seq<Task>;

    open spec fn view(&self) -> Seq<Task> {
        self.tasks@
    }
}

impl TaskQueue {
    /// Creates an empty queue.
    pub fn new() -> (q: Self)
        ensures
            q@ == Seq::<Task>::empty(),
    {
        TaskQueue { tasks: Vec::new() }
    }

    /// Appends a task at the back.
    pub fn push(&mut self, task: Task)
        ensures
            final(self)@ == old(self)@.push(task),
    {
        self.tasks.push(task);
    }

    /// Removes and returns the earliest-pushed task; `None` when empty.
    pub fn pop(&mut self) -> (r: Option<Task>)
        ensures
            old(self)@.len() == 0 ==> r is None && final(self)@ == old(self)@,
            old(self)@.len() > 0 ==> r == Option::Some(old(self)@[0]) && final(self)@ == old(self)@.remove(0),
    {
        if self.tasks.len() == 0 {
            Option::None
        } else {
            Option::Some(self.tasks.remove(0))
        }
    }

    /// Removes and returns the earliest-pushed task whose agent is not
    /// blocked; `None` (and no change) when no such task exists.
    pub fn pop_first_eligible(&mut self, blocked: &Vec<AgentId>) -> (r: Option<Task>)
        ensures
            pop_eligible_rel(old(self)@, final(self)@, blocked@, r),
    {
        let mut i: usize = 0;
        while i < self.tasks.len()
            invariant
                i <= self.tasks@.len(),
                self.tasks@ == old(self).tasks@,
                forall|j: int| 0 <= j < i ==> !eligible(self.tasks@[j], blocked@),
            decreases self.tasks@.len() - i,
        {
            if !contains_agent(blocked, self.tasks[i].agent_id) {
                let ghost ii = i as int;
                let t = self.tasks.remove(i);
                assert(0 <= ii < old(self)@.len() && t == old(self)@[ii] && eligible(
                    old(self)@[ii],
                    blocked@,
                ) && (forall|j: int| 0 <= j < ii ==> !eligible(old(self)@[j], blocked@)) && self@
                    == old(self)@.remove(ii));
                return Option::Some(t);
            }
            i = i + 1;
        }
        Option::None
    }

    /// True when the queue holds no task.
    pub fn is_empty(&self) -> (r: bool)
        ensures
            r == (self@.len() == 0),
    {
        self.tasks.len() == 0
    }

    /// Number of pending tasks.
    pub fn len(&self) -> (r: usize)
        ensures
            r == self@.len(),
    {
        self.tasks.len()
    }

    /// Removes every pending task.
    pub fn clear(&mut self)
        ensures
            final(self)@ == Seq::<Task>::empty(),
    {
        self.tasks.clear();
    }
}

impl Default for TaskQueue {
    /// An empty queue.
    fn default() -> (q: Self)
        ensures
            q@ == Seq::<Task>::empty(),
    {
        TaskQueue::new()
    }
}

/// How `pop_first_eligible` relates the queue before (`pre`) and
/// after (`post`): `None` leaves the queue unchanged exactly when no
/// task is eligible; otherwise the earliest eligible task leaves.
pub open spec fn pop_eligible_rel(
    pre: Seq<Task>,
    post: Seq<Task>,
    blocked: Seq<AgentId>,
    r: Option<Task>,
) -> bool {
    match r {
        Option::None => post == pre && (forall|j: int|
            0 <= j < pre.len() ==> !eligible(pre[j], blocked)),
        Option::Some(t) => exists|i: int|
            0 <= i < pre.len() && t == pre[i] && eligible(#[trigger] pre[i], blocked) && (forall|
                j: int,
            |
                0 <= j < i ==> !eligible(pre[j], blocked)) && post == pre.remove(i),
    }
}

/// Whether `agents` holds `a`.
pub fn contains_agent(agents: &Vec<AgentId>, a: AgentId) -> (r: bool)
    ensures
        r == agents@.contains(a),
{
    let mut i: usize = 0;
    while i < agents.len()
        invariant
            i <= agents@.len(),
            forall|j: int| 0 <= j < i ==> agents@[j] != a,
        decreases agents@.len() - i,
    {
        if agents[i] == a {
            return true;
        }
        i = i + 1;
    }
    false
}

} // verus!
