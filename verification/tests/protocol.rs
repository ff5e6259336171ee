use acp_tunnel::protocol::{ClientInfo, Envelope, OpenRequest, TUNNEL_VERSION};
use acp_tunnel::Error;

#[test]
fn rejects_unsupported_tunnel_version() {
    let open = Envelope::Open {
        tunnel_version: 99,
        agent: "codex".into(),
        workspace: "project-a".into(),
        client_info: ClientInfo {
            name: "test".into(),
            version: "1".into(),
        },
        resume: None,
    };
    assert!(matches!(open.into_open(), Err(Error::Protocol(_))));
}
