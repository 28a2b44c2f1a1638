//! Scheduling policy configuration: a policy type plus named numeric
//! parameters, built once and then read-only.

use vstd::prelude::*;

verus! {

/// Which selection strategy a scheduler runs.
#[derive(Debug, Clone, Copy, PartialEq, Eq, Structural)]
pub enum PolicyType {
    /// Weighted proportional service across agents.
    FairShare,
    /// Highest-priority bucket first.
    Priority,
    /// Cyclic rotation across per-agent queues.
    RoundRobin,
    /// First-come-first-served from a single queue.
    FCFS,
}

/// Value of the parameter named `name`, last write winning when the same
/// name was added more than once; `None` when never added.
pub open spec fn lookup_param(params: Seq<(String, u64)>, name: Seq<char>) -> Option<u64>
    decreases params.len(),
{
    if params.len() == 0 {
        Option::None
    } else if params.last().0@ == name {
        Option::Some(params.last().1)
    } else {
        lookup_param(params.drop_last(), name)
    }
}

/// A policy type together with an ordered list of (name, value)
/// parameters. Immutable value object built by accumulation.
#[derive(Debug, Clone)]
pub struct SchedulingPolicy {
    pub policy_type: PolicyType,
    pub parameters: Vec<(String, u64)>,
}

impl SchedulingPolicy {
    /// Creates a policy of the given type with no parameters.
    pub fn new(policy_type: PolicyType) -> (r: Self)
        ensures
            r.policy_type == policy_type,
            r.parameters@ == Seq::<(String, u64)>::empty(),
    {
        SchedulingPolicy { policy_type, parameters: Vec::new() }
    }

    /// Appends one named parameter and returns the accumulated policy.
    pub fn with_parameter(self, name: String, value: u64) -> (r: Self)
        ensures
            r.policy_type == self.policy_type,
            r.parameters@ == self.parameters@.push((name, value)),
    {
        let mut p = self;
        p.parameters.push((name, value));
        p
    }

    /// The policy type.
    pub fn policy_type(&self) -> (r: PolicyType)
        ensures
            r == self.policy_type,
    {
        self.policy_type
    }

    /// The parameter list, in insertion order.
    pub fn parameters(&self) -> (r: &Vec<(String, u64)>)
        ensures
            r@ == self.parameters@,
    {
        &self.parameters
    }

    /// Looks the parameter `name` up, last write winning.
    pub fn parameter(&self, name: &String) -> (r: Option<u64>)
        ensures
            r == lookup_param(self.parameters@, name@),
    {
        let ghost ps = self.parameters@;
        let mut i: usize = self.parameters.len();
        proof {
            assert(ps.take(ps.len() as int) =~= ps);
        }
        while i > 0
            invariant
                i <= ps.len(),
                ps == self.parameters@,
                lookup_param(ps, name@) == lookup_param(ps.take(i as int), name@),
            decreases i,
        {
            i = i - 1;
            let hit = self.parameters[i].0.eq(name);
            proof {
                let tk = ps.take(i + 1);
                assert(tk.len() == i + 1);
                assert(tk.last() == ps[i as int]);
                assert(tk.drop_last() =~= ps.take(i as int));
                if ps[i as int].0@ == name@ {
                    assert(lookup_param(tk, name@) == Option::Some(ps[i as int].1));
                } else {
                    assert(lookup_param(tk, name@) == lookup_param(ps.take(i as int), name@));
                }
            }
            if hit {
                return Option::Some(self.parameters[i].1);
            }
        }
        Option::None
    }
}

} // verus!
