//! The MCP server: its configuration and the answers of its DSL validation tool.
use vstd::prelude::*;
use crate::text::owned;

verus! {

/// The MCP server of the engine, served over SSE.
#[derive(Debug, Clone)]
pub struct McpServer {
    port: u16,
}

impl McpServer {
    /// A server for the given port.
    pub fn new(port: u16) -> (s: Self)
        ensures
            s.port() == port,
    {
        McpServer { port }
    }

    /// The port it listens on.
    pub closed spec fn port_spec(&self) -> u16 {
        self.port
    }

    /// The port it listens on.
    #[verifier::when_used_as_spec(port_spec)]
    pub fn port(&self) -> (p: u16)
        ensures
            p == self.port_spec(),
    {
        self.port
    }
}

/// The answer when the YAML is a valid plan.
pub open spec fn validation_ok_text() -> Seq<char> {
    "Validation successful. The YAML is a valid Evento TestPlan."@
}

/// The start of the answer when the YAML is not a valid plan; the cause follows.
pub open spec fn validation_failed_prefix() -> Seq<char> {
    "Validation failed: Failed to parse YAML test plan\n\nCaused by:\n    "@
}

/// The answer when the tool is called without a `yaml_content` string.
pub open spec fn invalid_arguments_text() -> Seq<char> {
    "Invalid arguments: missing or invalid 'yaml_content' string."@
}

/// The answer of the `validate_dsl` tool. `outcome` is `None` when the call has no
/// `yaml_content` string; otherwise it is the outcome of reading that string as a
/// test plan with serde_yaml: `Ok` when it reads, else serde_yaml's error message
/// (with its path and position).
pub fn validate_dsl_reply(outcome: Option<Result<(), String>>) -> (r: String)
    ensures
        match outcome {
            None => r@ == invalid_arguments_text(),
            Some(Ok(_)) => r@ == validation_ok_text(),
            Some(Err(m)) => r@ == validation_failed_prefix() + m@,
        },
{
    match outcome {
        None => owned("Invalid arguments: missing or invalid 'yaml_content' string."),
        Some(Ok(_)) => owned("Validation successful. The YAML is a valid Evento TestPlan."),
        Some(Err(m)) => {
            let mut r = owned("Validation failed: Failed to parse YAML test plan\n\nCaused by:\n    ");
            r.append(m.as_str());
            r
        },
    }
}

} // verus!
