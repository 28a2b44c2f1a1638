//! Priority scheduling: tasks bucketed by priority, the highest
//! non-empty bucket served first, FIFO within a bucket.

use vstd::prelude::*;
use crate::agent::AgentId;
use crate::task_queue::{eligible, Task, TaskQueue};

verus! {

/// Bucket a task of priority `priority` falls into when there are
/// `levels` buckets: the priority itself, capped at the top bucket.
pub open spec fn bucket_of(priority: u32, levels: int) -> int {
    if priority < levels {
        priority as int
    } else {
        levels - 1
    }
}

/// No task in `q` has an agent outside the blocked set.
pub open spec fn no_eligible_in(q: Seq<Task>, blocked: Seq<AgentId>) -> bool {
    forall|j: int| 0 <= j < q.len() ==> !eligible(q[j], blocked)
}

/// The contents of each bucket, as sequences of tasks.
pub open spec fn bucket_views(buckets: Seq<TaskQueue>) -> Seq<Seq<Task>> {
    buckets.map_values(|q: TaskQueue| q@)
}

/// Position `(b, i)` is the task a priority scheduler serves next:
/// an eligible task, first among the eligible of its bucket, with
/// every higher bucket holding no eligible task.
pub open spec fn priority_selection(
    buckets: Seq<Seq<Task>>,
    blocked: Seq<AgentId>,
    b: int,
    i: int,
) -> bool {
    &&& 0 <= b < buckets.len()
    &&& 0 <= i < buckets[b].len()
    &&& eligible(buckets[b][i], blocked)
    &&& forall|j: int| 0 <= j < i ==> !eligible(#[trigger] buckets[b][j], blocked)
    &&& forall|b2: int| b < b2 < buckets.len() ==> no_eligible_in(#[trigger] buckets[b2], blocked)
}

/// Scheduler serving the highest non-empty priority bucket first.
#[derive(Debug)]
pub struct PriorityScheduler {
    pub levels: u32,
    pub buckets: Vec<TaskQueue>,
}

impl PriorityScheduler {
    /// One bucket per level.
    pub open spec fn wf(self) -> bool {
        &&& self.levels >= 1
        &&& self.buckets@.len() == self.levels
    }

    /// Creates a scheduler with `levels` empty buckets.
    pub fn new(levels: u32) -> (r: Self)
        requires
            levels >= 1,
        ensures
            r.wf(),
            r.levels == levels,
            forall|b: int| 0 <= b < levels ==> #[trigger] r.buckets@[b]@ == Seq::<Task>::empty(),
    {
        let mut buckets: Vec<TaskQueue> = Vec::new();
        let mut b: u32 = 0;
        while b < levels
            invariant
                b <= levels,
                buckets@.len() == b,
                forall|j: int| 0 <= j < b ==> #[trigger] buckets@[j]@ == Seq::<Task>::empty(),
            decreases levels - b,
        {
            buckets.push(TaskQueue::new());
            b = b + 1;
        }
        PriorityScheduler { levels, buckets }
    }

    /// The number of priority levels.
    pub fn levels(&self) -> (r: u32)
        ensures
            r == self.levels,
    {
        self.levels
    }

    /// Enqueues a task at the back of the bucket its priority maps to.
    pub fn submit(&mut self, task: Task)
        requires
            old(self).wf(),
        ensures
            final(self).wf(),
            pr_submit_rel(*old(self), *final(self), task),
    {
        let b: usize = if task.priority < self.levels {
            task.priority as usize
        } else {
            (self.levels - 1) as usize
        };
        let q = &mut self.buckets[b];
        q.push(task);
    }

    /// Removes and returns the next task: from the highest bucket that
    /// holds an eligible task, the first eligible one in FIFO order.
    /// `None` (and no change) when no bucket holds an eligible task.
    pub fn next(&mut self, blocked: &Vec<AgentId>) -> (r: Option<Task>)
        requires
            old(self).wf(),
        ensures
            final(self).wf(),
            pr_next_rel(*old(self), *final(self), blocked@, r),
    {
        let mut b: usize = self.buckets.len();
        while b > 0
            invariant
                old(self).wf(),
                self.levels == old(self).levels,
                self.buckets@.len() == old(self).buckets@.len(),
                b <= self.buckets@.len(),
                forall|j: int| 0 <= j < self.buckets@.len() ==> #[trigger] self.buckets@[j]@ == old(self).buckets@[j]@,
                forall|b2: int|
                    b <= b2 < self.buckets@.len() ==> no_eligible_in(
                        #[trigger] old(self).buckets@[b2]@,
                        blocked@,
                    ),
            decreases b,
        {
            b = b - 1;
            let q = &mut self.buckets[b];
            let got = q.pop_first_eligible(blocked);
            if let Option::Some(t) = got {
                proof {
                    let gi = choose|i: int|
                        0 <= i < old(self).buckets@[b as int]@.len() && t == old(self).buckets@[b as int]@[i] && eligible(old(self).buckets@[b as int]@[i], blocked@)
                            && (forall|j: int|
                            0 <= j < i ==> !eligible(old(self).buckets@[b as int]@[j], blocked@))
                            && self.buckets@[b as int]@ == old(self).buckets@[b as int]@.remove(i);
                    assert(bucket_views(old(self).buckets@)[b as int] == old(self).buckets@[b as int]@);
                    assert(forall|b2: int|
                        b < b2 < old(self).buckets@.len() ==> #[trigger] bucket_views(
                            old(self).buckets@,
                        )[b2] == old(self).buckets@[b2]@);
                    assert(priority_selection(bucket_views(old(self).buckets@), blocked@, b as int, gi));
                }
                return Option::Some(t);
            }
            proof {
                assert(no_eligible_in(old(self).buckets@[b as int]@, blocked@));
            }
        }
        Option::None
    }
}

impl Default for PriorityScheduler {
    /// Five priority levels.
    fn default() -> (r: Self)
        ensures
            r.wf(),
            r.levels == 5,
    {
        PriorityScheduler::new(5)
    }
}

/// How `submit` relates the scheduler before (`pre`) and after
/// (`post`): the task lands at the back of the bucket its priority
/// maps to, and every other bucket is untouched.
pub open spec fn pr_submit_rel(pre: PriorityScheduler, post: PriorityScheduler, task: Task) -> bool {
    &&& post.levels == pre.levels
    &&& post.buckets@.len() == pre.buckets@.len()
    &&& post.buckets@[bucket_of(task.priority, pre.levels as int)]@ == pre.buckets@[bucket_of(
        task.priority,
        pre.levels as int,
    )]@.push(task)
    &&& forall|b: int|
        0 <= b < pre.buckets@.len() && b != bucket_of(task.priority, pre.levels as int)
            ==> #[trigger] post.buckets@[b]@ == pre.buckets@[b]@
}

/// How `next` relates the scheduler before (`pre`) and after (`post`):
/// `None` exactly when no bucket holds an eligible task; otherwise the
/// selected position's task leaves its bucket and every other bucket
/// is untouched.
pub open spec fn pr_next_rel(
    pre: PriorityScheduler,
    post: PriorityScheduler,
    blocked: Seq<AgentId>,
    r: Option<Task>,
) -> bool {
    &&& post.levels == pre.levels
    &&& post.buckets@.len() == pre.buckets@.len()
    &&& r is None ==> (forall|b: int|
        0 <= b < pre.buckets@.len() ==> no_eligible_in(#[trigger] pre.buckets@[b]@, blocked)) && (
    forall|b: int| 0 <= b < pre.buckets@.len() ==> #[trigger] post.buckets@[b]@ == pre.buckets@[b]@)
    &&& r matches Some(t) ==> exists|b: int, i: int|
        priority_selection(bucket_views(pre.buckets@), blocked, b, i) && t == pre.buckets@[b]@[i]
            && post.buckets@[b]@ == pre.buckets@[b]@.remove(i) && (forall|b2: int|
            0 <= b2 < pre.buckets@.len() && b2 != b ==> #[trigger] post.buckets@[b2]@
                == pre.buckets@[b2]@)
}

/// Buckets respect priority order: a higher priority never maps to a
/// lower bucket, and strictly higher whenever the higher priority
/// still lies within the level range.
pub proof fn lemma_bucket_monotone(p1: u32, p2: u32, levels: int)
    requires
        p2 < p1,
        levels >= 1,
    ensures
        bucket_of(p1, levels) >= bucket_of(p2, levels),
        p1 < levels ==> bucket_of(p1, levels) > bucket_of(p2, levels),
{
}

/// When tasks of two priorities are both present and eligible and one
/// maps to a strictly higher bucket, the scheduler never serves the
/// lower-bucket task first: the selected position always sits in a
/// bucket at least as high as the higher task's, hence above the lower
/// task's bucket.
pub proof fn lemma_priority_selected_first(
    buckets: Seq<Seq<Task>>,
    blocked: Seq<AgentId>,
    sel_b: int,
    sel_i: int,
    b1: int,
    i1: int,
    b2: int,
    i2: int,
)
    requires
        priority_selection(buckets, blocked, sel_b, sel_i),
        0 <= b1 < buckets.len(),
        0 <= i1 < buckets[b1].len(),
        eligible(buckets[b1][i1], blocked),
        0 <= b2 < buckets.len(),
        0 <= i2 < buckets[b2].len(),
        b1 > b2,
    ensures
        sel_b >= b1,
        sel_b > b2,
{
    if sel_b < b1 {
        assert(no_eligible_in(buckets[b1], blocked));
    }
}

} // verus!
