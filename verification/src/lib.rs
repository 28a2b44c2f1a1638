//! Task-dispatch and fault-tolerance core for an agent-orchestration
//! platform: policy-driven task scheduling (FCFS, round-robin, priority,
//! fair-share) and per-agent supervision (health tracking, circuit
//! breaking, exponential backoff, restart decisions).

pub mod agent;
pub mod backoff;
pub mod circuit_breaker;
pub mod engine;
pub mod fair_share;
pub mod health_check;
pub mod policy;
pub mod priority;
pub mod restart_policy;
pub mod round_robin;
pub mod supervisor;
pub mod task_queue;

pub use agent::AgentId;
pub use backoff::ExponentialBackoff;
pub use circuit_breaker::{CircuitBreaker, CircuitState};
pub use engine::{ConfigError, Scheduler, Strategy};
pub use fair_share::FairShareScheduler;
pub use health_check::{HealthCheck, HealthStatus};
pub use policy::{PolicyType, SchedulingPolicy};
pub use priority::PriorityScheduler;
pub use restart_policy::{RestartPolicy, RestartStrategy};
pub use round_robin::RoundRobinScheduler;
pub use supervisor::{AgentRecord, RestartDecision, Supervisor};
pub use task_queue::{Task, TaskQueue};
