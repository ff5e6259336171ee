use acp_tunnel::decimal::{decimal, signed_decimal};
use acp_tunnel::protocol::{AckStream, ClientInfo, Envelope, OpenRequest, ResumeRequest, TUNNEL_VERSION};
use acp_tunnel::Error;

fn open(version: u32) -> Envelope {
    Envelope::Open {
        tunnel_version: version,
        agent: "codex".into(),
        workspace: "project-a".into(),
        client_info: ClientInfo {
            name: "test".into(),
            version: "1".into(),
        },
        resume: Some(ResumeRequest {
            connection_id: "c-1".into(),
            resume_token: "r-1".into(),
        }),
    }
}

fn protocol_message(result: acp_tunnel::Result<OpenRequest>) -> String {
    match result {
        Err(Error::Protocol(message)) => message,
        other => panic!("expected a protocol error, got {other:?}"),
    }
}

#[test]
fn current_version_opens_with_every_field() {
    let request = open(TUNNEL_VERSION).into_open().unwrap();
    assert_eq!(
        request,
        OpenRequest {
            tunnel_version: 2,
            agent: "codex".into(),
            workspace: "project-a".into(),
            client_info: ClientInfo {
                name: "test".into(),
                version: "1".into(),
            },
            resume: Some(ResumeRequest {
                connection_id: "c-1".into(),
                resume_token: "r-1".into(),
            }),
        }
    );
}

#[test]
fn version_mismatch_names_both_versions() {
    assert_eq!(
        protocol_message(open(1).into_open()),
        "unsupported tunnel version 1; expected 2"
    );
    assert_eq!(
        protocol_message(open(0).into_open()),
        "unsupported tunnel version 0; expected 2"
    );
    assert_eq!(
        protocol_message(open(u32::MAX).into_open()),
        "unsupported tunnel version 4294967295; expected 2"
    );
}

#[test]
fn other_envelopes_do_not_open() {
    let envelopes = vec![
        Envelope::Ping { nonce: "n".into() },
        Envelope::Pong { nonce: "n".into() },
        Envelope::Acp { sequence: Some(1), payload: "{}".into() },
        Envelope::Ack { stream: AckStream::ClientToServer, sequence: 3 },
        Envelope::Stderr { payload: "x".into() },
        Envelope::Exit { code: Some(0), signal: None },
        Envelope::Error { code: "c".into(), message: "m".into() },
        Envelope::Ready {
            tunnel_version: 2,
            connection_id: "c".into(),
            resume_token: None,
            resumed: false,
        },
    ];
    for envelope in envelopes {
        assert_eq!(
            protocol_message(envelope.into_open()),
            "the first WebSocket message must be an open envelope"
        );
    }
}

#[test]
fn decimal_text_of_integers() {
    assert_eq!(decimal(0), "0");
    assert_eq!(decimal(7), "7");
    assert_eq!(decimal(10), "10");
    assert_eq!(decimal(1234567890), "1234567890");
    assert_eq!(decimal(u64::MAX), "18446744073709551615");
    assert_eq!(signed_decimal(-32001), "-32001");
    assert_eq!(signed_decimal(-1), "-1");
    assert_eq!(signed_decimal(0), "0");
    assert_eq!(signed_decimal(i64::MIN), "-9223372036854775808");
    assert_eq!(signed_decimal(i64::MAX), "9223372036854775807");
}
