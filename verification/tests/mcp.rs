//! The MCP validation tool.
use evento::mcp::{validate_dsl_reply, McpServer};

#[test]
fn mcp_server_keeps_its_port() {
    assert_eq!(McpServer::new(9000).port(), 9000);
}

#[test]
fn validate_dsl_answers() {
    assert_eq!(validate_dsl_reply(Some(Ok(()))), "Validation successful. The YAML is a valid Evento TestPlan.");
    assert_eq!(validate_dsl_reply(None), "Invalid arguments: missing or invalid 'yaml_content' string.");
    assert_eq!(
        validate_dsl_reply(Some(Err("scenario[0]: missing field `name` at line 3 column 5".to_string()))),
        "Validation failed: Failed to parse YAML test plan\n\nCaused by:\n    scenario[0]: missing field `name` at line 3 column 5"
    );
    assert_eq!(
        validate_dsl_reply(Some(Err(String::new()))),
        "Validation failed: Failed to parse YAML test plan\n\nCaused by:\n    "
    );
}
