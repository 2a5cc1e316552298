//! The command line of the engine.
use vstd::prelude::*;

verus! {

/// The parsed command line.
#[derive(Debug, Clone)]
pub struct Cli {
    pub command: Commands,
}

/// What the engine is asked to do.
#[derive(Debug, Clone)]
pub enum Commands {
    /// Run the test plan in the given YAML file.
    Run { plan: String },
    /// Start the MCP server on a port (8080 by default).
    Mcp { port: u16 },
    /// Start the admin server and REST API on a port (8080 by default).
    Server { port: u16 },
}

/// The port that `mcp` and `server` use when none is given.
pub const DEFAULT_PORT: u16 = 8080;

} // verus!
