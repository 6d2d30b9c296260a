//! The service's faces: the WebSocket stream of snapshots and batches, the REST server,
//! and the intelligence RPC service, whose calls are not offered yet.

use crate::text::{decimal, decimal_text};
use vstd::prelude::*;

verus! {

/// What happened while a WebSocket client is served.
#[derive(Clone, Copy, Debug, PartialEq, Eq, Structural)]
pub enum ConnectionEvent {
    /// A batch arrived from the engine.
    Batch,
    /// The client fell behind and this many batches were dropped for it.
    Lagged(u64),
    /// The engine's batch channel closed.
    ChannelClosed,
    /// Sending a batch to the client failed.
    SendFailed,
    /// The client sent a close frame.
    ClientClosed,
    /// The client sent some other message.
    ClientMessage,
    /// Reading from the client failed.
    ClientError,
    /// The client's stream ended.
    ClientGone,
}

/// What the server does next.
#[derive(Clone, Copy, Debug, PartialEq, Eq, Structural)]
pub enum ConnectionStep {
    /// Send the batch to the client.
    SendBatch,
    /// Note the dropped batches and go on.
    ReportLag,
    /// Go on waiting.
    Continue,
    /// End the connection.
    Close,
}

/// Returns what the server does after an event: batches are sent on, lag is reported
/// and the connection kept, messages from the client are ignored; a closed channel, a
/// failed send, a close frame, a read error or the end of the client's stream end it.
pub fn next_step(event: ConnectionEvent) -> (step: ConnectionStep)
    ensures
        step == match event {
            ConnectionEvent::Batch => ConnectionStep::SendBatch,
            ConnectionEvent::Lagged(_) => ConnectionStep::ReportLag,
            ConnectionEvent::ClientMessage => ConnectionStep::Continue,
            _ => ConnectionStep::Close,
        },
{
    match event {
        ConnectionEvent::Batch => ConnectionStep::SendBatch,
        ConnectionEvent::Lagged(_) => ConnectionStep::ReportLag,
        ConnectionEvent::ChannelClosed => ConnectionStep::Close,
        ConnectionEvent::SendFailed => ConnectionStep::Close,
        ConnectionEvent::ClientClosed => ConnectionStep::Close,
        ConnectionEvent::ClientMessage => ConnectionStep::Continue,
        ConnectionEvent::ClientError => ConnectionStep::Close,
        ConnectionEvent::ClientGone => ConnectionStep::Close,
    }
}

/// The REST server, which serves the snapshot and the cached orbital elements.
pub struct ViperRest;

/// The address the REST server listens on: every interface, at `port`.
pub open spec fn listen_address(port: u16) -> Seq<char> {
    "0.0.0.0:"@ + decimal(port as nat)
}

impl ViperRest {
    /// Returns the address to listen on.
    pub fn address(port: u16) -> (addr: String)
        ensures
            addr@ == listen_address(port),
    {
        String::from_str("0.0.0.0:").concat(decimal_text(port as u32).as_str())
    }
}

/// The status codes of the RPC service's answers.
#[derive(Clone, Copy, Debug, PartialEq, Eq, Structural)]
pub enum RpcCode {
    Unimplemented,
}

/// A refusal by the RPC service.
#[derive(Debug)]
pub struct RpcStatus {
    pub code: RpcCode,
    pub message: String,
}

/// The refusal of a call the service does not offer yet.
pub open spec fn is_not_offered(status: RpcStatus) -> bool {
    status.code == RpcCode::Unimplemented && status.message@ == "Not yet implemented"@
}

fn not_offered() -> (status: RpcStatus)
    ensures
        is_not_offered(status),
{
    RpcStatus { code: RpcCode::Unimplemented, message: String::from_str("Not yet implemented") }
}

/// The intelligence RPC service. None of its calls is offered yet: each refuses with
/// `Unimplemented`.
pub struct ViperIntelligenceEngine;

impl ViperIntelligenceEngine {
    /// Streaming the movement in an area of interest.
    pub fn stream_global_movement(&self) -> (r: Result<(), RpcStatus>)
        ensures
            r matches Err(s) && is_not_offered(s),
    {
        Err(not_offered())
    }

    /// Streaming the tactical alerts of a subscription.
    pub fn stream_tactical_alerts(&self) -> (r: Result<(), RpcStatus>)
        ensures
            r matches Err(s) && is_not_offered(s),
    {
        Err(not_offered())
    }

    /// Running a tactical scan.
    pub fn execute_tactical_scan(&self) -> (r: Result<(), RpcStatus>)
        ensures
            r matches Err(s) && is_not_offered(s),
    {
        Err(not_offered())
    }

    /// Reporting the vulnerabilities of a target.
    pub fn get_vulnerability_report(&self) -> (r: Result<(), RpcStatus>)
        ensures
            r matches Err(s) && is_not_offered(s),
    {
        Err(not_offered())
    }

    /// Resolving the links of an identity.
    pub fn resolve_identity_link(&self) -> (r: Result<(), RpcStatus>)
        ensures
            r matches Err(s) && is_not_offered(s),
    {
        Err(not_offered())
    }
}

} // verus!
