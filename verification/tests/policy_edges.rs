use acp_tunnel::config::{McpPolicy, McpServerConfig};
use acp_tunnel::policy::{method_member, AcpPolicy, PolicyOutcome};
use acp_tunnel::Error;
use serde_json::Value;

fn tools() -> McpServerConfig {
    McpServerConfig {
        command: "/server/tools".into(),
        args: vec!["serve".into()],
        pass_env: vec!["TOKEN".into(), "MISSING".into()],
        env: vec![("FIXED".into(), "yes".into())],
    }
}

fn policy(rewrite_cwd: bool, mcp_policy: McpPolicy) -> AcpPolicy {
    AcpPolicy::new(
        "/remote/project".into(),
        rewrite_cwd,
        mcp_policy,
        vec![("tools".into(), tools())],
        vec![("HOME".into(), "/home/x".into()), ("TOKEN".into(), "t-1".into())],
    )
}

fn forward(outcome: acp_tunnel::Result<PolicyOutcome>) -> String {
    match outcome {
        Ok(PolicyOutcome::Forward(line)) => line,
        other => panic!("expected forward, got {other:?}"),
    }
}

fn reject(outcome: acp_tunnel::Result<PolicyOutcome>) -> Value {
    match outcome {
        Ok(PolicyOutcome::Reject(line)) => serde_json::from_str(&line).unwrap(),
        other => panic!("expected reject, got {other:?}"),
    }
}

fn refusal(outcome: acp_tunnel::Result<PolicyOutcome>) -> String {
    match outcome {
        Err(Error::Policy(message)) => message,
        other => panic!("expected a policy error, got {other:?}"),
    }
}

#[test]
fn non_json_and_methodless_lines_pass_unchanged() {
    let p = policy(true, McpPolicy::Allowlisted);
    for line in ["not json", "{\"method\":5}", "{\"id\":1}", "[]", "[\"session/new\",1]", "{\"method\":null}"] {
        assert_eq!(forward(p.apply(line)), line);
    }
}

#[test]
fn lifecycle_edit_keeps_member_order() {
    let line = r#"{"id":1,"method":"session/load","params":{"cwd":"/a","x":2},"z":null}"#;
    assert_eq!(
        forward(policy(true, McpPolicy::Allowlisted).apply(line)),
        r#"{"id":1,"method":"session/load","params":{"cwd":"/remote/project","x":2},"z":null}"#
    );
}

#[test]
fn missing_params_are_added_with_cwd() {
    let line = r#"{"id":2,"method":"session/resume"}"#;
    assert_eq!(
        forward(policy(true, McpPolicy::Allowlisted).apply(line)),
        r#"{"id":2,"method":"session/resume","params":{"cwd":"/remote/project"}}"#
    );
}

#[test]
fn numbers_survive_the_edit() {
    let line = r#"{"id":1.5,"method":"session/load","params":{"n":-0.25,"big":18446744073709551615}}"#;
    assert_eq!(
        forward(policy(true, McpPolicy::Passthrough).apply(line)),
        r#"{"id":1.5,"method":"session/load","params":{"n":-0.25,"big":18446744073709551615,"cwd":"/remote/project"}}"#
    );
}

#[test]
fn malformed_lifecycle_requests_are_refused() {
    let p = policy(true, McpPolicy::Allowlisted);
    assert_eq!(
        refusal(p.apply(r#"{"method":"session/load","params":[1]}"#)),
        "lifecycle JSON-RPC params must be an object"
    );
    assert_eq!(
        refusal(p.apply(r#"["session/new"]"#)),
        "lifecycle JSON-RPC request must be an object"
    );
}

#[test]
fn passthrough_keeps_client_mcp_servers() {
    let line = r#"{"id":1,"method":"session/new","params":{"cwd":"/x","mcpServers":[{"name":"any","command":"c"}]}}"#;
    assert_eq!(
        forward(policy(true, McpPolicy::Passthrough).apply(line)),
        r#"{"id":1,"method":"session/new","params":{"cwd":"/remote/project","mcpServers":[{"name":"any","command":"c"}]}}"#
    );
}

#[test]
fn deny_applies_without_cwd_mapping() {
    let line = r#"{"id":1,"method":"session/new","params":{"cwd":"/x"}}"#;
    assert_eq!(
        forward(policy(false, McpPolicy::Deny).apply(line)),
        r#"{"id":1,"method":"session/new","params":{"cwd":"/x","mcpServers":[]}}"#
    );
}

#[test]
fn allowlisted_server_is_the_configured_definition() {
    let line = r#"{"id":1,"method":"session/new","params":{"mcpServers":[{"name":"tools","command":"evil"}]}}"#;
    assert_eq!(
        forward(policy(true, McpPolicy::Allowlisted).apply(line)),
        r#"{"id":1,"method":"session/new","params":{"mcpServers":[{"type":"stdio","name":"tools","command":"/server/tools","args":["serve"],"env":[{"name":"TOKEN","value":"t-1"},{"name":"FIXED","value":"yes"}]}],"cwd":"/remote/project"}}"#
    );
}

#[test]
fn allowlist_without_mcp_servers_changes_only_cwd() {
    let line = r#"{"id":1,"method":"session/new","params":{}}"#;
    assert_eq!(
        forward(policy(false, McpPolicy::Allowlisted).apply(line)),
        r#"{"id":1,"method":"session/new","params":{}}"#
    );
}

#[test]
fn every_mcp_refusal_is_a_correlated_error() {
    let p = policy(true, McpPolicy::Allowlisted);
    let not_array = reject(p.apply(r#"{"id":9,"method":"session/new","params":{"mcpServers":{}}}"#));
    assert_eq!(not_array["id"], 9);
    assert_eq!(not_array["jsonrpc"], "2.0");
    assert_eq!(not_array["error"]["code"], -32001);
    assert_eq!(not_array["error"]["message"], "params.mcpServers must be an array");

    let unnamed = reject(p.apply(r#"{"id":"a","method":"session/new","params":{"mcpServers":[{"command":"x"}]}}"#));
    assert_eq!(unnamed["error"]["message"], "each MCP server must have a string name");

    let unlisted = reject(p.apply(r#"{"method":"session/new","params":{"mcpServers":[{"name":"tools"},{"name":"evil\"x"}]}}"#));
    assert_eq!(unlisted["id"], Value::Null);
    assert_eq!(unlisted["error"]["message"], "MCP server \"evil\\\"x\" is not allowlisted");
}

#[test]
fn first_refused_server_decides_the_message() {
    let line = r#"{"id":3,"method":"session/new","params":{"mcpServers":[{"name":"nope"},{"command":"x"}]}}"#;
    let rejected = reject(policy(true, McpPolicy::Allowlisted).apply(line));
    assert_eq!(rejected["error"]["message"], "MCP server \"nope\" is not allowlisted");
}

#[test]
fn lifecycle_lines_that_do_not_parse_as_documents_are_refused() {
    let p = policy(true, McpPolicy::Allowlisted);
    let message = refusal(p.apply(r#"{"method":"session/load","x":1e400}"#));
    assert!(message.starts_with("invalid lifecycle JSON-RPC request: "));
    assert!(message.len() > "invalid lifecycle JSON-RPC request: ".len());
}

#[test]
fn escaped_method_names_are_recognised() {
    let line = r#"{"id":1,"meth\u006fd":"session/load"}"#;
    assert_eq!(
        forward(policy(true, McpPolicy::Allowlisted).apply(line)),
        r#"{"id":1,"method":"session/load","params":{"cwd":"/remote/project"}}"#
    );
}

#[test]
fn pass_env_needs_a_server_environment() {
    let line = r#"{"id":1,"method":"session/new","params":{"mcpServers":[{"name":"tools"}]}}"#;
    let bare = AcpPolicy::new("/remote/project".into(), false, McpPolicy::Allowlisted, vec![("tools".into(), tools())], Vec::new());
    assert_eq!(
        forward(bare.apply(line)),
        r#"{"id":1,"method":"session/new","params":{"mcpServers":[{"type":"stdio","name":"tools","command":"/server/tools","args":["serve"],"env":[{"name":"FIXED","value":"yes"}]}]}}"#
    );
}

#[test]
fn empty_args_and_env_are_left_out() {
    let plain = McpServerConfig {
        command: "/bin/plain".into(),
        args: Vec::new(),
        pass_env: Vec::new(),
        env: Vec::new(),
    };
    let p = AcpPolicy::new("/w".into(), false, McpPolicy::Allowlisted, vec![("plain".into(), plain)], Vec::new());
    let line = r#"{"id":1,"method":"session/new","params":{"mcpServers":[{"name":"plain","args":["x"]}]}}"#;
    assert_eq!(
        forward(p.apply(line)),
        r#"{"id":1,"method":"session/new","params":{"mcpServers":[{"type":"stdio","name":"plain","command":"/bin/plain"}]}}"#
    );
}

#[test]
fn later_entry_of_a_server_name_applies() {
    let other = McpServerConfig {
        command: "/bin/other".into(),
        args: Vec::new(),
        pass_env: Vec::new(),
        env: Vec::new(),
    };
    let p = AcpPolicy::new(
        "/w".into(),
        false,
        McpPolicy::Allowlisted,
        vec![("tools".into(), tools()), ("tools".into(), other)],
        Vec::new(),
    );
    let line = r#"{"id":1,"method":"session/new","params":{"mcpServers":[{"name":"tools"}]}}"#;
    assert_eq!(
        forward(p.apply(line)),
        r#"{"id":1,"method":"session/new","params":{"mcpServers":[{"type":"stdio","name":"tools","command":"/bin/other"}]}}"#
    );
}

#[test]
fn one_item_array_line_is_read_for_its_method() {
    let line = r#"["session/load"]"#;
    match policy(true, McpPolicy::Allowlisted).apply(line) {
        Err(Error::Policy(message)) => {
            assert_eq!(message, "lifecycle JSON-RPC request must be an object")
        }
        other => panic!("expected refusal, got {other:?}"),
    }
}

#[test]
fn repeated_method_member_leaves_the_line_unchanged() {
    let p = policy(true, McpPolicy::Allowlisted);
    let line = r#"{"method":"vendor/x","method":"session/load","params":{}}"#;
    assert_eq!(forward(p.apply(line)), line);
    let line = r#"{"method":"session/new","method":"session/new","params":{"mcpServers":[{"name":"x"}]}}"#;
    assert_eq!(forward(p.apply(line)), line);
    let line = r#"{"method":"session/load","id":1,"params":{},"_meta":{"method":"x"}}"#;
    let output: Value = serde_json::from_str(&forward(p.apply(line))).unwrap();
    assert_eq!(output["params"]["cwd"], "/remote/project");
}

#[test]
fn method_that_is_not_a_string_passes_unchanged() {
    let line = r#"{"method":7,"params":{}}"#;
    assert_eq!(forward(policy(true, McpPolicy::Allowlisted).apply(line)), line);
    let line = r#"{"method":null,"params":{}}"#;
    assert_eq!(forward(policy(true, McpPolicy::Allowlisted).apply(line)), line);
}

#[test]
fn method_member_needs_exactly_one_method() {
    let members = vec![
        ("id".to_string(), "1".to_string()),
        ("method".to_string(), "\"a\"".to_string()),
    ];
    assert_eq!(method_member(&members).map(|m| m.as_str()), Some("\"a\""));
    let twice = vec![
        ("method".to_string(), "\"a\"".to_string()),
        ("id".to_string(), "1".to_string()),
        ("method".to_string(), "\"b\"".to_string()),
    ];
    assert_eq!(method_member(&twice), None);
    let none = vec![("id".to_string(), "1".to_string())];
    assert_eq!(method_member(&none), None);
}

#[test]
fn pass_env_and_env_are_taken_as_a_set_and_a_map() {
    let server = McpServerConfig {
        command: "/bin/s".into(),
        args: Vec::new(),
        pass_env: vec!["b".into(), "A".into(), "b".into()],
        env: vec![("Z".into(), "1".into()), ("A".into(), "2".into()), ("Z".into(), "3".into())],
    };
    assert_eq!(server.pass_env_names(), vec!["A".to_string(), "b".to_string()]);
    assert_eq!(
        server.fixed_values(),
        vec![("A".to_string(), "2".to_string()), ("Z".to_string(), "3".to_string())]
    );
    let p = AcpPolicy::new(
        "/w".into(),
        false,
        McpPolicy::Allowlisted,
        vec![("s".into(), server)],
        vec![("A".into(), "a".into()), ("b".into(), "bee".into())],
    );
    let line = r#"{"id":1,"method":"session/new","params":{"mcpServers":[{"name":"s"}]}}"#;
    assert_eq!(
        forward(p.apply(line)),
        r#"{"id":1,"method":"session/new","params":{"mcpServers":[{"type":"stdio","name":"s","command":"/bin/s","env":[{"name":"A","value":"a"},{"name":"b","value":"bee"},{"name":"A","value":"2"},{"name":"Z","value":"3"}]}]}}"#
    );
}

#[test]
fn names_order_by_bytes_with_prefixes_first() {
    let server = McpServerConfig {
        command: "/bin/s".into(),
        args: Vec::new(),
        pass_env: vec!["ab".into(), "a".into(), "é".into(), "z".into()],
        env: Vec::new(),
    };
    assert_eq!(
        server.pass_env_names(),
        vec!["a".to_string(), "ab".to_string(), "z".to_string(), "é".to_string()]
    );
}
