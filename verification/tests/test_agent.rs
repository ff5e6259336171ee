use acp_tunnel::json::Json;
use acp_tunnel::test_agent::{environment_reply, noise_line, pid_reply, test_agent_step, TestAgentStep};
use acp_tunnel::Error;

fn reply(line: &str) -> Vec<String> {
    match test_agent_step(line).unwrap() {
        TestAgentStep::Reply(lines) => lines,
        other => panic!("expected a reply, got {other:?}"),
    }
}

#[test]
fn initialize_reports_the_test_agent() {
    assert_eq!(
        reply(r#"{"jsonrpc":"2.0","id":"init","method":"initialize","params":{}}"#),
        vec![r#"{"jsonrpc":"2.0","id":"init","result":{"protocolVersion":1,"agentCapabilities":{},"agentInfo":{"name":"acp-tunnel-test-agent","version":"0"}}}"#.to_string()]
    );
}

#[test]
fn session_new_reports_the_observed_cwd() {
    assert_eq!(
        reply(r#"{"id":1,"method":"session/new","params":{"cwd":"/remote/project"}}"#),
        vec![r#"{"jsonrpc":"2.0","id":1,"result":{"sessionId":"test-session","observedCwd":"/remote/project"}}"#.to_string()]
    );
    assert_eq!(
        reply(r#"{"id":1,"method":"session/new"}"#),
        vec![r#"{"jsonrpc":"2.0","id":1,"result":{"sessionId":"test-session","observedCwd":null}}"#.to_string()]
    );
}

#[test]
fn prompt_streams_an_update_a_permission_request_and_a_result() {
    assert_eq!(
        reply(r#"{"id":"p","method":"session/prompt"}"#),
        vec![
            r#"{"jsonrpc":"2.0","method":"session/update","params":{"sessionId":"test-session","update":{"sessionUpdate":"agent_message_chunk","content":{"type":"text","text":"test"}}}}"#.to_string(),
            r#"{"jsonrpc":"2.0","id":"agent-permission-1","method":"session/request_permission","params":{"sessionId":"test-session","options":[]}}"#.to_string(),
            r#"{"jsonrpc":"2.0","id":"p","result":{"stopReason":"end_turn"}}"#.to_string(),
        ]
    );
}

#[test]
fn cancel_answers_only_requests() {
    assert!(reply(r#"{"method":"session/cancel"}"#).is_empty());
    assert_eq!(
        reply(r#"{"id":null,"method":"session/cancel"}"#),
        vec![r#"{"jsonrpc":"2.0","id":null,"result":{}}"#.to_string()]
    );
}

#[test]
fn unknown_methods_get_method_not_found_only_with_an_id() {
    assert_eq!(
        reply(r#"{"id":4,"method":"x/y"}"#),
        vec![r#"{"jsonrpc":"2.0","id":4,"error":{"code":-32601,"message":"method not found"}}"#.to_string()]
    );
    assert!(reply(r#"{"method":"x/y"}"#).is_empty());
    assert!(reply(r#"{"id":4}"#).is_empty());
    assert!(reply(r#"[1,2]"#).is_empty());
}

#[test]
fn exit_and_stderr_steps() {
    match test_agent_step(r#"{"id":5,"method":"test/exit"}"#).unwrap() {
        TestAgentStep::ReplyAndExit(lines) => {
            assert_eq!(lines, vec![r#"{"jsonrpc":"2.0","id":5,"result":{}}"#.to_string()])
        }
        other => panic!("unexpected step {other:?}"),
    }
    match test_agent_step(r#"{"id":6,"method":"test/stderr"}"#).unwrap() {
        TestAgentStep::NoiseThenReply(lines) => assert_eq!(
            lines,
            vec![r#"{"jsonrpc":"2.0","id":6,"result":{"stderrComplete":true}}"#.to_string()]
        ),
        other => panic!("unexpected step {other:?}"),
    }
    assert_eq!(noise_line(0), "noisy diagnostic 0");
    assert_eq!(noise_line(999), "noisy diagnostic 999");
}

#[test]
fn pid_and_environment_replies() {
    let id = match test_agent_step(r#"{"id":7,"method":"test/pid"}"#).unwrap() {
        TestAgentStep::ReportPid(id) => id,
        other => panic!("unexpected step {other:?}"),
    };
    assert_eq!(pid_reply(&id, 4321), r#"{"jsonrpc":"2.0","id":7,"result":{"pid":4321}}"#);
    match test_agent_step(r#"{"id":8,"method":"test/environment","params":{"name":"HOME"}}"#).unwrap() {
        TestAgentStep::ReportEnvironment(id, name) => {
            assert_eq!(name, "HOME");
            assert_eq!(
                environment_reply(&id, Some("/home/x".into())),
                r#"{"jsonrpc":"2.0","id":8,"result":{"value":"/home/x"}}"#
            );
            assert_eq!(environment_reply(&id, None), r#"{"jsonrpc":"2.0","id":8,"result":{"value":null}}"#);
        }
        other => panic!("unexpected step {other:?}"),
    }
    match test_agent_step(r#"{"method":"test/environment"}"#).unwrap() {
        TestAgentStep::ReportEnvironment(id, name) => {
            assert!(id.is_none());
            assert_eq!(name, "");
        }
        other => panic!("unexpected step {other:?}"),
    }
    assert_eq!(pid_reply(&Some(Json::Str("s".into())), 0), r#"{"jsonrpc":"2.0","id":"s","result":{"pid":0}}"#);
}

#[test]
fn non_json_lines_stop_the_agent_with_a_json_error() {
    assert!(matches!(test_agent_step("not json"), Err(Error::Json(_))));
}
