//! Verified core of a tunnel that carries ACP agent traffic over an
//! authenticated WebSocket: bearer authentication, the tunnel's opening
//! handshake, the ACP lifecycle policy and the built-in test agent.
pub mod auth;
pub mod config;
pub mod decimal;
pub mod json;
pub mod policy;
pub mod process;
pub mod protocol;
pub mod test_agent;

use vstd::prelude::*;

verus! {

/// Errors of the tunnel's library.
#[derive(Debug)]
pub enum Error {
    /// A tunnel peer broke the tunnel protocol.
    Protocol(String),
    /// An ACP request does not have the shape the configured policy needs.
    Policy(String),
    /// A text is not JSON.
    Json(String),
}

/// Results of the tunnel's library.
pub type Result<T> = std::result::Result<T, Error>;

} // verus!
