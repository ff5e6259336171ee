//! Versioned messages exchanged over the tunnel WebSocket.
use crate::decimal::{decimal, decimal_text};
use crate::{Error, Result};
use vstd::prelude::*;

verus! {

/// The current tunnel protocol version.
pub const TUNNEL_VERSION: u32 = 2;

/// Metadata describing a connecting client.
#[derive(Clone, Debug, Eq, PartialEq)]
pub struct ClientInfo {
    /// Client implementation name.
    pub name: String,
    /// Client implementation version.
    pub version: String,
}

/// Credentials used to resume one detached tunnel.
#[derive(Clone, Debug, Eq, PartialEq)]
pub struct ResumeRequest {
    /// Opaque connection identifier returned by the first ready response of the connection.
    pub connection_id: String,
    /// Secret, single-session resume credential.
    pub resume_token: String,
}

/// Identifies the direction acknowledged by an [`Envelope::Ack`].
#[derive(Clone, Copy, Debug, Eq, PartialEq)]
pub enum AckStream {
    /// ACP sent from the connector to the remote agent.
    ClientToServer,
    /// ACP sent from the remote agent to the connector.
    ServerToClient,
}

/// Versioned messages exchanged over the tunnel WebSocket.
#[derive(Clone, Debug, Eq, PartialEq)]
pub enum Envelope {
    /// Requests one configured agent and workspace.
    Open {
        /// Tunnel protocol version.
        tunnel_version: u32,
        /// Server-configured agent identifier.
        agent: String,
        /// Server-configured workspace identifier.
        workspace: String,
        /// Connecting client metadata.
        client_info: ClientInfo,
        /// Resume credentials for a previously detached tunnel.
        resume: Option<ResumeRequest>,
    },
    /// Confirms that the remote agent is running.
    Ready {
        /// Negotiated tunnel protocol version.
        tunnel_version: u32,
        /// Opaque connection identifier.
        connection_id: String,
        /// Secret required to reattach to this connection.
        resume_token: Option<String>,
        /// True when this ready response confirms a resumed transport.
        resumed: bool,
    },
    /// Carries one complete, opaque ACP NDJSON line.
    Acp {
        /// Ordered stream sequence number in tunnel protocol v2.
        sequence: Option<u64>,
        /// The ACP line as received, without its line terminator.
        payload: String,
    },
    /// Confirms durable delivery of sequenced ACP data to the next local pipe.
    Ack {
        /// Direction of the acknowledged ACP frame.
        stream: AckStream,
        /// Highest contiguous delivered sequence number.
        sequence: u64,
    },
    /// Carries one remote standard-error line.
    Stderr {
        /// Diagnostic text without its line terminator.
        payload: String,
    },
    /// Reports remote process termination.
    Exit {
        /// Portable process exit code, when available.
        code: Option<i32>,
        /// Unix signal number, when available.
        signal: Option<i32>,
    },
    /// Reports a tunnel-level error.
    Error {
        /// Stable machine-readable error category.
        code: String,
        /// Human-readable error safe to disclose to the client.
        message: String,
    },
    /// Tunnel-level keepalive request.
    Ping {
        /// Opaque value copied into the pong.
        nonce: String,
    },
    /// Tunnel-level keepalive response.
    Pong {
        /// Opaque value copied from the ping.
        nonce: String,
    },
}

/// A validated opening request.
#[derive(Clone, Debug, Eq, PartialEq)]
pub struct OpenRequest {
    /// Requested tunnel protocol version.
    pub tunnel_version: u32,
    /// Requested configured agent identifier.
    pub agent: String,
    /// Requested configured workspace identifier.
    pub workspace: String,
    /// Connecting client metadata.
    pub client_info: ClientInfo,
    /// Resume credentials, when reconnecting a v2 tunnel.
    pub resume: Option<ResumeRequest>,
}

/// The opening request an envelope carries, when it is an open envelope of
/// the current tunnel version.
pub open spec fn opened(envelope: Envelope) -> Option<OpenRequest> {
    match envelope {
        Envelope::Open { tunnel_version, agent, workspace, client_info, resume } => {
            if tunnel_version == TUNNEL_VERSION {
                Some(OpenRequest { tunnel_version, agent, workspace, client_info, resume })
            } else {
                None
            }
        },
        _ => None,
    }
}

/// The message refusing an open envelope of another tunnel version.
pub open spec fn unsupported_version_message(tunnel_version: u32) -> Seq<char> {
    "unsupported tunnel version "@ + decimal_text(tunnel_version as nat) + "; expected "@
        + decimal_text(TUNNEL_VERSION as nat)
}

/// The message refusing an envelope that is not an open envelope.
pub open spec fn not_open_message() -> Seq<char> {
    "the first WebSocket message must be an open envelope"@
}

impl Envelope {
    /// Validates and extracts an opening request.
    pub fn into_open(self) -> (opened_request: Result<OpenRequest>)
        ensures
            match opened(self) {
                Some(request) => opened_request == Ok::<OpenRequest, Error>(request),
                None => match self {
                    Envelope::Open { tunnel_version, .. } => opened_request matches Err(
                        Error::Protocol(message),
                    ) && message@ == unsupported_version_message(tunnel_version),
                    _ => opened_request matches Err(Error::Protocol(message)) && message@
                        == not_open_message(),
                },
            },
    {
        match self {
            Envelope::Open { tunnel_version, agent, workspace, client_info, resume } => {
                if tunnel_version == TUNNEL_VERSION {
                    Ok(OpenRequest { tunnel_version, agent, workspace, client_info, resume })
                } else {
                    let mut message = "unsupported tunnel version ".to_owned();
                    message.append(decimal(tunnel_version as u64).as_str());
                    message.append("; expected ");
                    message.append(decimal(TUNNEL_VERSION as u64).as_str());
                    Err(Error::Protocol(message))
                }
            },
            _ => Err(Error::Protocol("the first WebSocket message must be an open envelope".to_owned())),
        }
    }
}

/// An opening request of the current version survives the trip through an
/// open envelope unchanged; every other envelope opens nothing.
pub proof fn lemma_open_round_trip(request: OpenRequest, envelope: Envelope)
    requires
        request.tunnel_version == TUNNEL_VERSION,
    ensures
        opened(
            Envelope::Open {
                tunnel_version: request.tunnel_version,
                agent: request.agent,
                workspace: request.workspace,
                client_info: request.client_info,
                resume: request.resume,
            },
        ) == Some(request),
        !(envelope is Open) ==> opened(envelope) is None,
        envelope matches Envelope::Open { tunnel_version, .. } ==> (opened(envelope) is Some
            <==> tunnel_version == TUNNEL_VERSION),
{
}

} // verus!
