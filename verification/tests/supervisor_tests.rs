use agent_dispatch::agent::AgentId;
use agent_dispatch::backoff::ExponentialBackoff;
use agent_dispatch::circuit_breaker::{CircuitBreaker, CircuitState};
use agent_dispatch::health_check::{HealthCheck, HealthStatus};
use agent_dispatch::restart_policy::{RestartPolicy, RestartStrategy};
use agent_dispatch::supervisor::{restart_decision, RestartDecision, Supervisor};
use agent_dispatch::engine::Scheduler;
use agent_dispatch::policy::{PolicyType, SchedulingPolicy};
use agent_dispatch::task_queue::Task;

fn aid(n: u64) -> AgentId {
    AgentId::new(n)
}

#[test]
fn health_check_starts_unknown() {
    let h = HealthCheck::new();
    assert_eq!(h.status(), HealthStatus::Unknown);
    assert_eq!(h.failures(), 0);
    assert!(!h.is_healthy());
}

#[test]
fn health_check_counts_and_resets_failures() {
    let mut h = HealthCheck::new();
    h.record_unhealthy(10);
    h.record_unhealthy(20);
    assert_eq!(h.status(), HealthStatus::Unhealthy);
    assert_eq!(h.failures(), 2);
    h.record_healthy(30);
    assert_eq!(h.status(), HealthStatus::Healthy);
    assert_eq!(h.failures(), 0);
    assert!(h.is_healthy());
}

#[test]
fn breaker_opens_at_exactly_threshold() {
    let mut b = CircuitBreaker::new(3, 10);
    b.record_failure(1);
    b.record_failure(2);
    assert_eq!(b.state(), CircuitState::Closed);
    assert_eq!(b.failures(), 2);
    b.record_failure(3);
    assert_eq!(b.state(), CircuitState::Open);
    assert!(!b.allows_dispatch());
}

#[test]
fn breaker_success_in_closed_resets_count() {
    let mut b = CircuitBreaker::new(3, 10);
    b.record_failure(1);
    b.record_failure(2);
    b.record_success(3);
    assert_eq!(b.failures(), 0);
    assert_eq!(b.state(), CircuitState::Closed);
}

#[test]
fn breaker_cool_down_half_open_then_close() {
    // threshold 3, cool-down 10s
    let mut b = CircuitBreaker::new(3, 10);
    b.record_failure(1);
    b.record_failure(1);
    b.record_failure(1);
    assert_eq!(b.state(), CircuitState::Open);
    b.refresh(5);
    assert_eq!(b.state(), CircuitState::Open);
    b.refresh(11);
    assert_eq!(b.state(), CircuitState::HalfOpen);
    assert!(b.allows_dispatch());
    b.record_success(12);
    assert_eq!(b.state(), CircuitState::Closed);
    assert_eq!(b.failures(), 0);
}

#[test]
fn breaker_half_open_failure_reopens() {
    let mut b = CircuitBreaker::new(1, 10);
    b.record_failure(0);
    assert_eq!(b.state(), CircuitState::Open);
    b.refresh(10);
    assert_eq!(b.state(), CircuitState::HalfOpen);
    b.record_failure(11);
    assert_eq!(b.state(), CircuitState::Open);
    // the cool-down timer restarted at 11
    b.refresh(20);
    assert_eq!(b.state(), CircuitState::Open);
    b.refresh(21);
    assert_eq!(b.state(), CircuitState::HalfOpen);
}

#[test]
fn breaker_single_trial_in_half_open() {
    let mut b = CircuitBreaker::new(1, 10);
    b.record_failure(0);
    b.refresh(10);
    assert!(b.allows_dispatch());
    b.note_dispatch();
    assert!(!b.allows_dispatch());
    b.record_success(11);
    assert!(b.allows_dispatch());
}

#[test]
fn backoff_doubles_and_caps() {
    let mut bo = ExponentialBackoff::new(1, 2, 30, false, 0);
    let expected = [1u64, 2, 4, 8, 16, 30, 30];
    for e in expected {
        assert_eq!(bo.next_delay(), e);
    }
}

#[test]
fn backoff_is_non_decreasing_without_jitter() {
    let mut bo = ExponentialBackoff::new(3, 7, 1_000_000, false, 0);
    let mut prev = 0u64;
    for _ in 0..50 {
        let d = bo.next_delay();
        assert!(d >= prev);
        assert!(d <= 1_000_000);
        prev = d;
    }
}

#[test]
fn backoff_reset_returns_to_base() {
    let mut bo = ExponentialBackoff::new(5, 2, 100, false, 0);
    assert_eq!(bo.next_delay(), 5);
    assert_eq!(bo.next_delay(), 10);
    bo.reset();
    assert_eq!(bo.attempt(), 0);
    assert_eq!(bo.next_delay(), 5);
}

#[test]
fn backoff_jitter_is_bounded_and_reproducible() {
    let mut a = ExponentialBackoff::new(8, 2, 1000, true, 42);
    let mut b = ExponentialBackoff::new(8, 2, 1000, true, 42);
    let mut raw = ExponentialBackoff::new(8, 2, 1000, false, 42);
    for _ in 0..10 {
        let da = a.next_delay();
        let db = b.next_delay();
        let dr = raw.next_delay();
        // deterministic for a fixed seed
        assert_eq!(da, db);
        // within [delay - delay/2, delay]
        assert!(da <= dr);
        assert!(da >= dr - dr / 2);
    }
}

#[test]
fn restart_policy_builder_accumulates() {
    let p = RestartPolicy::new(RestartStrategy::OnFailure)
        .with_max_retries(3)
        .with_backoff_seconds(7);
    assert_eq!(p.strategy(), RestartStrategy::OnFailure);
    assert_eq!(p.max_retries(), Some(3));
    assert_eq!(p.backoff_seconds(), 7);
    let d = RestartPolicy::new(RestartStrategy::Never);
    assert_eq!(d.max_retries(), None);
    assert_eq!(d.backoff_seconds(), 1);
}

#[test]
fn restart_decision_table() {
    let never = RestartPolicy::new(RestartStrategy::Never);
    let always = RestartPolicy::new(RestartStrategy::Always).with_max_retries(2);
    let on_failure = RestartPolicy::new(RestartStrategy::OnFailure);
    let backoff = RestartPolicy::new(RestartStrategy::ExponentialBackoff);
    assert_eq!(
        restart_decision(&never, 0, HealthStatus::Unhealthy, 5),
        RestartDecision::NoRestart
    );
    assert_eq!(
        restart_decision(&always, 1, HealthStatus::Healthy, 5),
        RestartDecision::RestartNow
    );
    assert_eq!(
        restart_decision(&always, 2, HealthStatus::Unhealthy, 5),
        RestartDecision::PermanentFailure
    );
    assert_eq!(
        restart_decision(&on_failure, 0, HealthStatus::Healthy, 5),
        RestartDecision::NoRestart
    );
    assert_eq!(
        restart_decision(&on_failure, 0, HealthStatus::Unhealthy, 5),
        RestartDecision::RestartNow
    );
    assert_eq!(
        restart_decision(&backoff, 0, HealthStatus::Unhealthy, 5),
        RestartDecision::RestartAfter(5)
    );
}

#[test]
fn supervisor_never_strategy_schedules_nothing() {
    let policy = RestartPolicy::new(RestartStrategy::Never);
    let mut sup = Supervisor::new(policy, 3, 10, 2, 60, false);
    for now in 0..10u64 {
        assert_eq!(sup.report_failure(aid(1), now), RestartDecision::NoRestart);
    }
    assert_eq!(sup.retries_of(aid(1)), Some(0));
}

#[test]
fn supervisor_on_failure_exhausts_after_max_retries() {
    let policy = RestartPolicy::new(RestartStrategy::OnFailure).with_max_retries(3);
    let mut sup = Supervisor::new(policy, 100, 10, 2, 60, false);
    assert_eq!(sup.report_failure(aid(1), 1), RestartDecision::RestartNow);
    assert_eq!(sup.report_failure(aid(1), 2), RestartDecision::RestartNow);
    assert_eq!(sup.report_failure(aid(1), 3), RestartDecision::RestartNow);
    // the 4th consecutive failure signals permanent failure, no 4th restart
    assert_eq!(sup.report_failure(aid(1), 4), RestartDecision::PermanentFailure);
    assert_eq!(sup.retries_of(aid(1)), Some(3));
}

#[test]
fn supervisor_success_resets_retries_and_backoff() {
    let policy = RestartPolicy::new(RestartStrategy::ExponentialBackoff)
        .with_backoff_seconds(2);
    let mut sup = Supervisor::new(policy, 100, 10, 2, 60, false);
    assert_eq!(sup.report_failure(aid(1), 1), RestartDecision::RestartAfter(2));
    assert_eq!(sup.report_failure(aid(1), 2), RestartDecision::RestartAfter(4));
    assert_eq!(sup.report_failure(aid(1), 3), RestartDecision::RestartAfter(8));
    sup.report_success(aid(1), 4);
    assert_eq!(sup.retries_of(aid(1)), Some(0));
    assert!(sup.health_of(aid(1)).unwrap().is_healthy());
    // backoff starts over from the base delay
    assert_eq!(sup.report_failure(aid(1), 5), RestartDecision::RestartAfter(2));
}

#[test]
fn supervisor_blocks_agent_after_breaker_opens() {
    let policy = RestartPolicy::new(RestartStrategy::OnFailure);
    let mut sup = Supervisor::new(policy, 3, 10, 2, 60, false);
    sup.register_agent(aid(1));
    sup.register_agent(aid(2));
    sup.report_failure(aid(1), 1);
    sup.report_failure(aid(1), 2);
    assert_eq!(sup.blocked_agents(3), Vec::<AgentId>::new());
    sup.report_failure(aid(1), 3);
    assert_eq!(sup.breaker_state(aid(1)), Some(CircuitState::Open));
    assert_eq!(sup.blocked_agents(4), vec![aid(1)]);
    // after the cool-down the breaker goes HalfOpen: a trial is allowed
    assert_eq!(sup.blocked_agents(13), Vec::<AgentId>::new());
    assert_eq!(sup.breaker_state(aid(1)), Some(CircuitState::HalfOpen));
    // taking the trial blocks further dispatch until an outcome arrives
    sup.note_dispatch(aid(1));
    assert_eq!(sup.blocked_agents(14), vec![aid(1)]);
    sup.report_success(aid(1), 15);
    assert_eq!(sup.breaker_state(aid(1)), Some(CircuitState::Closed));
    assert_eq!(sup.blocked_agents(16), Vec::<AgentId>::new());
}

#[test]
fn supervisor_scenario_threshold_three_cooldown_ten() {
    // a breaker with threshold 3 and 10s cool-down: three failures open
    // it; 10s later one HalfOpen success closes it with zero failures
    let policy = RestartPolicy::new(RestartStrategy::OnFailure);
    let mut sup = Supervisor::new(policy, 3, 10, 2, 60, false);
    sup.report_failure(aid(9), 0);
    sup.report_failure(aid(9), 1);
    sup.report_failure(aid(9), 2);
    assert_eq!(sup.breaker_state(aid(9)), Some(CircuitState::Open));
    sup.blocked_agents(12);
    assert_eq!(sup.breaker_state(aid(9)), Some(CircuitState::HalfOpen));
    sup.report_success(aid(9), 13);
    assert_eq!(sup.breaker_state(aid(9)), Some(CircuitState::Closed));
    assert_eq!(sup.health_of(aid(9)).unwrap().failures(), 0);
}

#[test]
fn supervisor_tracks_agents_independently() {
    let policy = RestartPolicy::new(RestartStrategy::OnFailure).with_max_retries(1);
    let mut sup = Supervisor::new(policy, 3, 10, 2, 60, false);
    assert_eq!(sup.report_failure(aid(1), 1), RestartDecision::RestartNow);
    assert_eq!(sup.report_failure(aid(2), 1), RestartDecision::RestartNow);
    assert_eq!(sup.report_failure(aid(1), 2), RestartDecision::PermanentFailure);
    assert_eq!(sup.retries_of(aid(2)), Some(1));
    assert_eq!(sup.retries_of(aid(3)), None);
}

#[test]
fn default_health_and_restart_policy() {
    let h = HealthCheck::default();
    assert_eq!(h.status(), HealthStatus::Unknown);
    assert_eq!(h.failures(), 0);
    let p = RestartPolicy::default();
    assert_eq!(p.strategy(), RestartStrategy::OnFailure);
    assert_eq!(p.max_retries(), None);
    assert_eq!(p.backoff_seconds(), 1);
}

#[test]
fn scheduler_consults_breaker_through_blocked_list() {
    let policy = RestartPolicy::new(RestartStrategy::OnFailure);
    let mut sup = Supervisor::new(policy, 1, 10, 2, 60, false);
    let mut sched = Scheduler::new(&SchedulingPolicy::new(PolicyType::FCFS)).unwrap();
    sched.submit(Task::new(aid(1), 0));
    sched.submit(Task::new(aid(2), 0));
    sup.report_failure(aid(1), 0);
    let blocked = sup.blocked_agents(1);
    // agent 1's circuit is open, so its task is passed over
    assert_eq!(sched.next(&blocked).unwrap().agent_id().id(), 2);
    assert!(sched.next(&blocked).is_none());
    // after the cool-down and a successful trial, agent 1 is served
    let blocked = sup.blocked_agents(11);
    assert!(blocked.is_empty());
    assert_eq!(sched.next(&blocked).unwrap().agent_id().id(), 1);
}
