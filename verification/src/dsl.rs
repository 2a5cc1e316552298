//! The document model of the eDSL: a test plan, its configuration, data sources,
//! steps, mocks and modules.
//!
//! Fields that the YAML document may write as an arbitrary value keep it as a
//! [`Node`]; fields that hold a fractional number keep its decimal text.
use vstd::prelude::*;
use crate::keymap::KeyMap;
use crate::value::Node;

verus! {

/// The root of an eDSL test document.
#[derive(Debug)]
pub struct TestPlan {
    /// Identifier of the test suite; the document may also call it `name`.
    pub test: String,
    pub description: Option<String>,
    pub imports: Option<Vec<String>>,
    pub config: Option<Config>,
    pub data_sources: Option<Vec<DataSource>>,
    pub functions: Option<Vec<Function>>,
    /// The execution graph: the steps in document order.
    pub scenario: Vec<Step>,
    pub validation: Option<ValidationBlock>,
    pub outputs: Option<Vec<Output>>,
    pub metadata: Option<Metadata>,
    pub base: Option<String>,
    pub extends: Option<String>,
}

/// Authorship and tags of a document.
#[derive(Debug, Clone)]
pub struct Metadata {
    pub author: Option<String>,
    pub created: Option<String>,
    pub tags: Option<Vec<String>>,
}

/// Execution configuration of a plan.
#[derive(Debug, Clone)]
pub struct Config {
    pub mode: Option<String>,
    pub source: Option<String>,
    /// Replay speed multiplier, as decimal text.
    pub speed: Option<String>,
    pub cron: Option<String>,
    pub duration: Option<String>,
    pub virtual_users: Option<u32>,
    pub ramp_up: Option<RampUp>,
    pub timeout: Option<String>,
    pub step_timeout: Option<String>,
    /// How mocks are resolved: `auto` (the default), `disabled` or `required`.
    pub mock_strategy: Option<String>,
}

/// Ramp-up strategy: a duration (linear) or a structured description.
#[derive(Debug, Clone)]
pub enum RampUp {
    Duration(String),
    Structured(RampUpConfig),
}

#[derive(Debug, Clone)]
pub struct RampUpConfig {
    pub strategy: String,
    pub duration: String,
    pub steps: Option<u32>,
}

/// An external data feed or a generator of synthetic records.
#[derive(Debug, Clone)]
pub struct DataSource {
    pub name: String,
    pub source: Option<String>,
    pub generator: Option<String>,
    pub connection: Option<String>,
    pub query: Option<String>,
    pub path: Option<String>,
    pub sampling: Option<String>,
    pub cache: Option<bool>,
    pub fields: Option<KeyMap<String>>,
}

/// A unit of work of a scenario.
#[derive(Debug)]
pub struct Step {
    pub name: String,
    pub description: Option<String>,
    pub protocol: Option<String>,
    pub endpoint: Option<String>,
    pub method: Option<String>,
    pub headers: Option<KeyMap<String>>,
    pub body: Option<Node>,
    pub topic: Option<String>,
    pub message: Option<Node>,
    pub mode: Option<String>,
    pub expect: Option<KeyMap<Node>>,
    pub within: Option<WithinConfig>,
    pub service: Option<String>,
    pub connection: Option<String>,
    pub query: Option<String>,
    /// Fire-and-forget flag (written `async` in the document).
    pub is_async: Option<bool>,
    pub validate: Option<Vec<String>>,
    pub on_success: Option<String>,
    pub on_failure: Option<String>,
    pub parallel: Option<Vec<Vec<Step>>>,
    /// Loop control (`loop` in the document).
    pub loop_config: Option<LoopConfig>,
    /// Loop body (`do` in the document).
    pub do_steps: Option<DoBlock>,
    pub wait_for: Option<Vec<String>>,
    pub timeout: Option<String>,
    pub on_timeout: Option<String>,
    pub retry: Option<RetryConfig>,
    pub extract: Option<KeyMap<String>>,
    pub track_metric: Option<TrackMetric>,
    pub script: Option<String>,
    pub runtime: Option<String>,
    pub transform: Option<Vec<Transform>>,
    pub use_module: Option<String>,
    pub with: Option<KeyMap<Node>>,
    pub outputs_to: Option<String>,
    pub mock: Option<MockConfig>,
}

/// Loop control: a count, a collection, or both.
#[derive(Debug, Clone)]
pub struct LoopConfig {
    pub count: Option<Node>,
    pub over: Option<String>,
    pub from: Option<String>,
}

/// The body of a loop.
#[derive(Debug)]
pub enum DoBlock {
    Single(Box<Step>),
    Multiple(Vec<Step>),
    Inline(Box<InlineStepBody>),
}

/// Protocol fields written directly inside a `do` block.
#[derive(Debug, Clone)]
pub struct InlineStepBody {
    pub protocol: Option<String>,
    pub endpoint: Option<String>,
    pub method: Option<String>,
    pub headers: Option<KeyMap<String>>,
    pub body: Option<Node>,
}

/// Retry policy for transient failures.
#[derive(Debug, Clone)]
pub struct RetryConfig {
    pub max_attempts: u32,
    pub backoff: Option<String>,
    pub delay: Option<String>,
}

/// Temporal constraint: a duration, or a duration counted from another step.
#[derive(Debug, Clone)]
pub enum WithinConfig {
    Duration(String),
    Structured(WithinStructured),
}

#[derive(Debug, Clone)]
pub struct WithinStructured {
    pub duration: String,
    pub since: Option<String>,
}

/// A custom business metric.
#[derive(Debug, Clone)]
pub struct TrackMetric {
    pub name: String,
    pub value: String,
    pub dimensions: Option<KeyMap<String>>,
}

/// A reusable function definition.
#[derive(Debug, Clone)]
pub struct Function {
    pub name: String,
    pub language: String,
    pub source: String,
}

/// One stage of a transformation pipeline.
#[derive(Debug, Clone)]
pub struct Transform {
    pub input: String,
    pub function: String,
    pub params: Option<KeyMap<Node>>,
    pub output_to: String,
}

/// Business rules evaluated after the scenario.
#[derive(Debug, Clone)]
pub struct ValidationBlock {
    pub business_rules: Option<Vec<BusinessRule>>,
}

#[derive(Debug, Clone)]
pub struct BusinessRule {
    pub name: String,
    /// Threshold, as decimal text.
    pub threshold: Option<String>,
    pub actual: String,
}

/// An export destination for metrics.
#[derive(Debug, Clone)]
pub struct Output {
    pub format: String,
    pub endpoint: Option<String>,
    pub file: Option<String>,
    pub api_key: Option<String>,
}

/// A module file: a named, reusable scenario.
#[derive(Debug)]
pub struct ModuleDefinition {
    pub module: String,
    pub inputs: Option<Vec<String>>,
    pub outputs: Option<Vec<String>>,
    pub scenario: Vec<Step>,
}

/// The synthetic behaviour of a step.
#[derive(Debug, Clone)]
pub struct MockConfig {
    pub response: Option<MockResponse>,
    pub responses: Option<Vec<MockResponse>>,
    pub on_exhausted: Option<String>,
    pub behavior: Option<MockBehavior>,
    pub request_schema: Option<Node>,
    pub response_schema: Option<Node>,
}

/// A synthetic response.
#[derive(Debug, Clone)]
pub struct MockResponse {
    pub status: Option<u16>,
    pub headers: Option<KeyMap<String>>,
    pub body: Option<Node>,
    pub latency: Option<String>,
    pub message: Option<Node>,
    pub delay: Option<String>,
    pub rows: Option<Vec<Node>>,
}

/// Failure injection controls of a mock.
#[derive(Debug, Clone)]
pub struct MockBehavior {
    /// Fraction of failing calls, as decimal text.
    pub error_rate: Option<String>,
    pub error_response: Option<MockResponse>,
    pub latency: Option<MockLatency>,
    /// Fraction of calls that time out, as decimal text.
    pub timeout_rate: Option<String>,
}

/// Simulated latency: fixed, or drawn from a distribution.
#[derive(Debug, Clone)]
pub enum MockLatency {
    Fixed(String),
    Distribution(LatencyDistribution),
}

#[derive(Debug, Clone)]
pub struct LatencyDistribution {
    pub distribution: String,
    pub mean: Option<String>,
    pub stddev: Option<String>,
    pub min: Option<String>,
    pub max: Option<String>,
}

} // verus!
