//! Agent identity: an opaque identifier compared only for equality.

use vstd::prelude::*;

verus! {

/// Identifier of an agent. The core treats it as opaque: it is compared
/// for equality, never ordered.
#[derive(Debug, Clone, Copy, PartialEq, Eq, Structural, Hash)]
pub struct AgentId {
    pub id: u64,
}

impl AgentId {
    /// Wraps a raw identifier value.
    pub fn new(id: u64) -> (r: Self)
        ensures
            r.id == id,
    {
        AgentId { id }
    }

    /// The raw identifier value.
    pub fn id(&self) -> (r: u64)
        ensures
            r == self.id,
    {
        self.id
    }
}

/// Index of the first occurrence of `a` in `agents`, if any.
pub fn find_agent(agents: &Vec<AgentId>, a: AgentId) -> (r: Option<usize>)
    ensures
        match r {
            Option::None => !agents@.contains(a),
            Option::Some(i) => i < agents@.len() && agents@[i as int] == a && (forall|j: int|
                0 <= j < i ==> agents@[j] != a),
        },
{
    let mut i: usize = 0;
    while i < agents.len()
        invariant
            i <= agents@.len(),
            forall|j: int| 0 <= j < i ==> agents@[j] != a,
        decreases agents@.len() - i,
    {
        if agents[i] == a {
            return Option::Some(i);
        }
        i = i + 1;
    }
    assert(!agents@.contains(a));
    Option::None
}

} // verus!
