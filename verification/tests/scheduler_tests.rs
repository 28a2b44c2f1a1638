use agent_dispatch::agent::AgentId;
use agent_dispatch::engine::{ConfigError, Scheduler};
use agent_dispatch::fair_share::FairShareScheduler;
use agent_dispatch::policy::{PolicyType, SchedulingPolicy};
use agent_dispatch::priority::PriorityScheduler;
use agent_dispatch::round_robin::RoundRobinScheduler;
use agent_dispatch::task_queue::{Task, TaskQueue};

fn aid(n: u64) -> AgentId {
    AgentId::new(n)
}

#[test]
fn task_queue_is_fifo() {
    let mut q = TaskQueue::new();
    assert!(q.is_empty());
    q.push(Task::new(aid(1), 0));
    q.push(Task::new(aid(2), 0));
    q.push(Task::new(aid(3), 0));
    assert_eq!(q.len(), 3);
    assert_eq!(q.pop().unwrap().agent_id().id(), 1);
    assert_eq!(q.pop().unwrap().agent_id().id(), 2);
    assert_eq!(q.pop().unwrap().agent_id().id(), 3);
    assert!(q.pop().is_none());
}

#[test]
fn task_queue_clear_empties() {
    let mut q = TaskQueue::new();
    q.push(Task::new(aid(1), 0));
    q.push(Task::new(aid(2), 0));
    q.clear();
    assert!(q.is_empty());
    assert_eq!(q.len(), 0);
}

#[test]
fn task_accessors() {
    let t = Task::new(aid(7), 42);
    assert_eq!(t.agent_id().id(), 7);
    assert_eq!(t.priority(), 42);
}

#[test]
fn policy_parameter_last_write_wins() {
    let p = SchedulingPolicy::new(PolicyType::FairShare)
        .with_parameter("weight".to_string(), 2)
        .with_parameter("weight".to_string(), 9);
    assert_eq!(p.policy_type(), PolicyType::FairShare);
    assert_eq!(p.parameter(&"weight".to_string()), Some(9));
    assert_eq!(p.parameter(&"absent".to_string()), None);
    assert_eq!(p.parameters().len(), 2);
}

#[test]
fn fcfs_scheduler_serves_in_arrival_order() {
    let policy = SchedulingPolicy::new(PolicyType::FCFS);
    let mut s = Scheduler::new(&policy).unwrap();
    s.submit(Task::new(aid(1), 0));
    s.submit(Task::new(aid(2), 0));
    let none_blocked: Vec<AgentId> = Vec::new();
    assert_eq!(s.next(&none_blocked).unwrap().agent_id().id(), 1);
    assert_eq!(s.next(&none_blocked).unwrap().agent_id().id(), 2);
    assert!(s.next(&none_blocked).is_none());
}

#[test]
fn fcfs_scheduler_skips_blocked_agents() {
    let policy = SchedulingPolicy::new(PolicyType::FCFS);
    let mut s = Scheduler::new(&policy).unwrap();
    s.submit(Task::new(aid(1), 0));
    s.submit(Task::new(aid(2), 0));
    let blocked = vec![aid(1)];
    assert_eq!(s.next(&blocked).unwrap().agent_id().id(), 2);
    assert_eq!(s.next(&blocked), None);
    let none_blocked: Vec<AgentId> = Vec::new();
    assert_eq!(s.next(&none_blocked).unwrap().agent_id().id(), 1);
}

#[test]
fn priority_scheduler_serves_higher_priority_first() {
    let policy =
        SchedulingPolicy::new(PolicyType::Priority).with_parameter("levels".to_string(), 5);
    let mut s = Scheduler::new(&policy).unwrap();
    s.submit(Task::new(aid(1), 5));
    s.submit(Task::new(aid(2), 1));
    let none_blocked: Vec<AgentId> = Vec::new();
    assert_eq!(s.next(&none_blocked).unwrap().agent_id().id(), 1);
    assert_eq!(s.next(&none_blocked).unwrap().agent_id().id(), 2);
    assert!(s.next(&none_blocked).is_none());
}

#[test]
fn priority_scheduler_fifo_within_a_bucket() {
    let mut p = PriorityScheduler::new(3);
    p.submit(Task::new(aid(1), 2));
    p.submit(Task::new(aid(2), 2));
    p.submit(Task::new(aid(3), 0));
    let none_blocked: Vec<AgentId> = Vec::new();
    assert_eq!(p.next(&none_blocked).unwrap().agent_id().id(), 1);
    assert_eq!(p.next(&none_blocked).unwrap().agent_id().id(), 2);
    assert_eq!(p.next(&none_blocked).unwrap().agent_id().id(), 3);
}

#[test]
fn priority_scheduler_caps_priorities_at_top_bucket() {
    let mut p = PriorityScheduler::new(3);
    assert_eq!(p.levels(), 3);
    p.submit(Task::new(aid(1), 100));
    p.submit(Task::new(aid(2), 2));
    let none_blocked: Vec<AgentId> = Vec::new();
    // both map to the top bucket; FIFO order decides
    assert_eq!(p.next(&none_blocked).unwrap().agent_id().id(), 1);
    assert_eq!(p.next(&none_blocked).unwrap().agent_id().id(), 2);
}

#[test]
fn priority_policy_rejects_zero_levels() {
    let policy =
        SchedulingPolicy::new(PolicyType::Priority).with_parameter("levels".to_string(), 0);
    assert_eq!(Scheduler::new(&policy).unwrap_err(), ConfigError::InvalidPriorityLevels);
}

#[test]
fn priority_policy_defaults_to_five_levels() {
    let policy = SchedulingPolicy::new(PolicyType::Priority);
    let mut s = Scheduler::new(&policy).unwrap();
    // priorities 4 and 9 both land in the top bucket of five (index 4),
    // so FIFO order applies between them; 0 stays below
    s.submit(Task::new(aid(1), 9));
    s.submit(Task::new(aid(2), 4));
    s.submit(Task::new(aid(3), 0));
    let none_blocked: Vec<AgentId> = Vec::new();
    assert_eq!(s.next(&none_blocked).unwrap().agent_id().id(), 1);
    assert_eq!(s.next(&none_blocked).unwrap().agent_id().id(), 2);
    assert_eq!(s.next(&none_blocked).unwrap().agent_id().id(), 3);
}

#[test]
fn round_robin_cycles_through_all_agents() {
    let mut rr = RoundRobinScheduler::new();
    for a in 1..=3u64 {
        rr.submit(Task::new(aid(a), 0));
        rr.submit(Task::new(aid(a), 0));
    }
    let none_blocked: Vec<AgentId> = Vec::new();
    let mut first_cycle = Vec::new();
    for _ in 0..3 {
        first_cycle.push(rr.next(&none_blocked).unwrap().agent_id().id());
    }
    let mut sorted = first_cycle.clone();
    sorted.sort();
    // each of the three agents was served exactly once in three calls
    assert_eq!(sorted, vec![1, 2, 3]);
}

#[test]
fn round_robin_skips_blocked_agent_but_rotation_continues() {
    let mut rr = RoundRobinScheduler::new();
    rr.submit(Task::new(aid(1), 0));
    rr.submit(Task::new(aid(2), 0));
    rr.submit(Task::new(aid(3), 0));
    let blocked = vec![aid(1)];
    assert_eq!(rr.next(&blocked).unwrap().agent_id().id(), 2);
    assert_eq!(rr.next(&blocked).unwrap().agent_id().id(), 3);
    assert!(rr.next(&blocked).is_none());
    let none_blocked: Vec<AgentId> = Vec::new();
    assert_eq!(rr.next(&none_blocked).unwrap().agent_id().id(), 1);
}

#[test]
fn fair_share_converges_to_weight_ratio() {
    let mut fs = FairShareScheduler::new();
    fs.add_agent(aid(1), 2);
    fs.add_agent(aid(2), 1);
    for _ in 0..40 {
        fs.submit(Task::new(aid(1), 0));
        fs.submit(Task::new(aid(2), 0));
    }
    let none_blocked: Vec<AgentId> = Vec::new();
    let mut served = [0u64; 2];
    for _ in 0..30 {
        let t = fs.next(&none_blocked).unwrap();
        served[(t.agent_id().id() - 1) as usize] += 1;
    }
    // weights 2:1 over 30 dispatches with both queues always non-empty
    assert_eq!(served[0], 20);
    assert_eq!(served[1], 10);
}

#[test]
fn fair_share_ties_broken_by_earliest_enqueue() {
    let mut fs = FairShareScheduler::new();
    fs.add_agent(aid(1), 1);
    fs.add_agent(aid(2), 1);
    fs.submit(Task::new(aid(2), 0));
    fs.submit(Task::new(aid(1), 0));
    let none_blocked: Vec<AgentId> = Vec::new();
    // equal ratios: agent 2 enqueued first, so it is served first
    assert_eq!(fs.next(&none_blocked).unwrap().agent_id().id(), 2);
    assert_eq!(fs.next(&none_blocked).unwrap().agent_id().id(), 1);
}

#[test]
fn fair_share_scheduler_via_engine() {
    let policy = SchedulingPolicy::new(PolicyType::FairShare);
    let mut s = Scheduler::new(&policy).unwrap();
    assert!(s.add_agent(aid(1), 3).is_ok());
    assert_eq!(s.add_agent(aid(2), 0).unwrap_err(), ConfigError::InvalidWeight);
    s.submit(Task::new(aid(1), 0));
    let none_blocked: Vec<AgentId> = Vec::new();
    assert_eq!(s.next(&none_blocked).unwrap().agent_id().id(), 1);
    assert!(s.next(&none_blocked).is_none());
}

#[test]
fn round_robin_scheduler_via_engine() {
    let policy = SchedulingPolicy::new(PolicyType::RoundRobin);
    let mut s = Scheduler::new(&policy).unwrap();
    assert_eq!(s.policy_type(), PolicyType::RoundRobin);
    s.submit(Task::new(aid(5), 0));
    s.submit(Task::new(aid(6), 0));
    let none_blocked: Vec<AgentId> = Vec::new();
    assert_eq!(s.next(&none_blocked).unwrap().agent_id().id(), 5);
    assert_eq!(s.next(&none_blocked).unwrap().agent_id().id(), 6);
}

#[test]
fn empty_scheduler_returns_none_not_an_error() {
    let policy = SchedulingPolicy::new(PolicyType::RoundRobin);
    let mut s = Scheduler::new(&policy).unwrap();
    let none_blocked: Vec<AgentId> = Vec::new();
    assert!(s.next(&none_blocked).is_none());
}

#[test]
fn default_constructions_match_documented_values() {
    let q = TaskQueue::default();
    assert!(q.is_empty());
    let p = PriorityScheduler::default();
    assert_eq!(p.levels(), 5);
}
