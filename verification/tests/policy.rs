use acp_tunnel::config::{McpPolicy, McpServerConfig};
use acp_tunnel::policy::{AcpPolicy, PolicyOutcome};
use serde_json::Value;

fn policy(rewrite_cwd: bool, mcp_policy: McpPolicy) -> AcpPolicy {
    let servers = vec![(
        "tools".to_string(),
        McpServerConfig {
            command: "/server/tools".into(),
            args: vec!["serve".into()],
            pass_env: Vec::new(),
            env: vec![("FIXED".into(), "yes".into())],
        },
    )];
    AcpPolicy::new("/remote/project".into(), rewrite_cwd, mcp_policy, servers, Vec::new())
}

fn forwarded(outcome: PolicyOutcome) -> Value {
    let PolicyOutcome::Forward(line) = outcome else {
        panic!("expected forward");
    };
    serde_json::from_str(&line).unwrap()
}

fn json(text: &str) -> Value {
    serde_json::from_str(text).unwrap()
}

#[test]
fn unknown_extensions_pass_through_byte_for_byte() {
    let line = r#" { "method":"vendor/future","_meta":{"x":1} } "#;
    assert_eq!(
        policy(true, McpPolicy::Allowlisted).apply(line).unwrap(),
        PolicyOutcome::Forward(line.into())
    );
}

#[test]
fn rewrites_only_lifecycle_cwd_and_preserves_unknown_fields() {
    let line = r#"{"jsonrpc":"2.0","id":"x","method":"session/load","params":{"cwd":"/local","sessionId":"s","_meta":{"future":{"a":1}}},"vendor":true}"#;
    let output = forwarded(policy(true, McpPolicy::Allowlisted).apply(line).unwrap());
    assert_eq!(output["id"], "x");
    assert_eq!(output["params"]["cwd"], "/remote/project");
    assert_eq!(output["params"]["_meta"]["future"]["a"], 1);
    assert_eq!(output["vendor"], true);
}

#[test]
fn disabled_rewriting_keeps_exact_bytes() {
    let line = r#" {"method":"session/load","params":{"cwd":"/same"}} "#;
    assert_eq!(
        policy(false, McpPolicy::Passthrough).apply(line).unwrap(),
        PolicyOutcome::Forward(line.into())
    );
}

#[test]
fn deny_removes_mcp_servers() {
    let line = r#"{"id":1,"method":"session/new","params":{"cwd":"/x","mcpServers":[{"name":"bad","command":"evil"}]}}"#;
    let output = forwarded(policy(true, McpPolicy::Deny).apply(line).unwrap());
    assert_eq!(output["params"]["mcpServers"], json("[]"));
}

#[test]
fn allowlist_replaces_all_client_controlled_fields() {
    let line = r#"{"id":1,"method":"session/new","params":{"cwd":"/x","mcpServers":[{"name":"tools","command":"evil","args":["bad"],"env":[{"name":"X","value":"bad"}]}]}}"#;
    let output = forwarded(policy(true, McpPolicy::Allowlisted).apply(line).unwrap());
    let server = &output["params"]["mcpServers"][0];
    assert_eq!(server["command"], "/server/tools");
    assert_eq!(server["args"], json(r#"["serve"]"#));
    assert_eq!(server["env"], json(r#"[{"name":"FIXED","value":"yes"}]"#));
}

#[test]
fn unknown_mcp_name_returns_correlated_error() {
    let line = r#"{"jsonrpc":"2.0","id":"request-7","method":"session/new","params":{"cwd":"/x","mcpServers":[{"name":"unknown"}]}}"#;
    let PolicyOutcome::Reject(error) = policy(true, McpPolicy::Allowlisted).apply(line).unwrap()
    else {
        panic!("expected rejection");
    };
    let error: Value = serde_json::from_str(&error).unwrap();
    assert_eq!(error["id"], "request-7");
    assert_eq!(error["error"]["code"], -32001);
}
