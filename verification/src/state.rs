//! The execution model: a compiled plan, its tasks, and the states of runs,
//! virtual users and steps.
use vstd::prelude::*;
use crate::dsl::Step;
use crate::keymap::KeyMap;

verus! {

/// The current time in milliseconds since the Unix epoch, read with
/// `chrono::Utc::now`; nothing is claimed of it.
#[verifier::external_body]
pub fn now_unix_ms() -> i64 {
    chrono::Utc::now().timestamp_millis()
}

/// The overall execution plan of a test plan: a flat list of tasks whose
/// dependencies name earlier tasks.
#[derive(Debug)]
pub struct ExecutionPlan {
    pub run_id: String,
    pub namespace: String,
    pub config: ExecutionConfig,
    pub tasks: Vec<ExecutionTask>,
    pub metadata: PlanMetadata,
}

/// Run-wide settings of a compiled plan.
#[derive(Debug, Clone)]
pub struct ExecutionConfig {
    pub virtual_users: u32,
    pub duration_ms: u64,
    pub mock_strategy: String,
    /// The plan's default timeout of a step (`config.step_timeout`), as written.
    pub step_timeout: Option<String>,
}

/// When and why a plan was submitted.
#[derive(Debug)]
pub struct PlanMetadata {
    /// Submission time, in milliseconds since the Unix epoch.
    pub submitted_at: i64,
    pub description: Option<String>,
}

/// A single execution unit of the plan.
#[derive(Debug)]
pub struct ExecutionTask {
    pub task_id: String,
    pub step_name: String,
    /// Task ids that must complete first.
    pub dependencies: Vec<String>,
    /// The DSL step to execute.
    pub step_definition: Step,
}

/// State of a whole test run.
#[derive(Debug, Clone)]
pub enum RunState {
    Submitted,
    Compiling,
    Pending,
    Running,
    Completed,
    Failed(String),
    Cancelled,
}

/// State of a virtual user.
#[derive(Debug, Clone)]
pub enum VuState {
    Spawned,
    Executing(String),
    WaitingOnDependency,
    Completed,
    Failed { task_id: String, error: String },
}

/// The outcome of one attempt at a step.
#[derive(Debug)]
pub struct StepResult {
    pub run_id: String,
    pub vu_id: u32,
    pub task_id: String,
    pub retry_attempt: u32,
    pub status: StepStatus,
    pub latency_ms: u64,
    /// Completion time, in milliseconds since the Unix epoch.
    pub executed_at: i64,
    pub context_before: KeyMap<String>,
    pub context_after: KeyMap<String>,
}

/// Whether a step succeeded.
#[derive(Debug, Clone)]
pub enum StepStatus {
    Success,
    Failed(String),
}

} // verus!
