//! The protocol client's handshake: `initialize`, the `initialized`
//! notification, then `tools/list`. A client is ready only when all three
//! succeeded; the first failure ends the handshake.
use vstd::prelude::*;

use crate::error::AppError;

verus! {

/// The protocol version the client asks for.
pub open spec fn client_protocol_version() -> Seq<char> {
    "2025-03-26"@
}

/// The name the client introduces itself with.
pub open spec fn client_name() -> Seq<char> {
    "MCP Manager"@
}

/// What the client sends in `initialize`.
#[derive(Debug, Clone)]
pub struct InitializeParams {
    pub protocol_version: String,
    pub client_name: String,
    pub client_version: String,
}

/// The `initialize` parameters for a client of version `version`.
pub fn initialize_params(version: &str) -> (r: InitializeParams)
    ensures
        r.protocol_version@ == client_protocol_version(),
        r.client_name@ == client_name(),
        r.client_version@ == version@,
{
    InitializeParams {
        protocol_version: "2025-03-26".to_owned(),
        client_name: "MCP Manager".to_owned(),
        client_version: version.to_owned(),
    }
}

/// Where a handshake stands.
#[derive(Debug, Clone, Copy, PartialEq, Eq, Structural)]
pub enum Handshake {
    /// `initialize` is to be sent.
    Start,
    /// `initialize` succeeded; the `initialized` notification is to be sent.
    Initialized,
    /// The notification went out; `tools/list` is to be sent.
    Notified,
    /// Tools were discovered: the client is ready.
    Ready,
}

/// What the client sends next.
#[derive(Debug, Clone, Copy, PartialEq, Eq, Structural)]
pub enum HandshakeAction {
    SendInitialize,
    SendInitializedNotification,
    SendToolsList,
    Done,
}

pub open spec fn action_spec(h: Handshake) -> HandshakeAction {
    match h {
        Handshake::Start => HandshakeAction::SendInitialize,
        Handshake::Initialized => HandshakeAction::SendInitializedNotification,
        Handshake::Notified => HandshakeAction::SendToolsList,
        Handshake::Ready => HandshakeAction::Done,
    }
}

pub open spec fn advance_spec(h: Handshake) -> Handshake {
    match h {
        Handshake::Start => Handshake::Initialized,
        Handshake::Initialized => Handshake::Notified,
        Handshake::Notified => Handshake::Ready,
        Handshake::Ready => Handshake::Ready,
    }
}

impl Handshake {
    /// What is to be sent in this state.
    pub fn action(&self) -> (r: HandshakeAction)
        ensures
            r == action_spec(*self),
    {
        match self {
            Handshake::Start => HandshakeAction::SendInitialize,
            Handshake::Initialized => HandshakeAction::SendInitializedNotification,
            Handshake::Notified => HandshakeAction::SendToolsList,
            Handshake::Ready => HandshakeAction::Done,
        }
    }

    /// The state after the current step's outcome: the next step on
    /// success, the step's error otherwise.
    pub fn step(self, outcome: Result<(), AppError>) -> (r: Result<Handshake, AppError>)
        ensures
            match outcome {
                Ok(()) => r == Ok::<Handshake, AppError>(advance_spec(self)),
                Err(e) => r == Err::<Handshake, AppError>(e),
            },
    {
        match outcome {
            Err(e) => Err(e),
            Ok(()) => Ok(
                match self {
                    Handshake::Start => Handshake::Initialized,
                    Handshake::Initialized => Handshake::Notified,
                    Handshake::Notified => Handshake::Ready,
                    Handshake::Ready => Handshake::Ready,
                },
            ),
        }
    }
}

/// Three successful steps from the start make a ready client, and a client
/// is never ready after a failed step.
pub proof fn lemma_ready_after_three_steps()
    ensures
        advance_spec(advance_spec(advance_spec(Handshake::Start))) == Handshake::Ready,
        action_spec(Handshake::Start) == HandshakeAction::SendInitialize,
        action_spec(advance_spec(Handshake::Start)) == HandshakeAction::SendInitializedNotification,
        action_spec(advance_spec(advance_spec(Handshake::Start))) == HandshakeAction::SendToolsList,
{
}

/// A response of `method` must carry a result.
pub fn require_result(has_result: bool, method: &str) -> (r: Result<(), AppError>)
    ensures
        has_result ==> r is Ok,
        !has_result ==> (r matches Err(AppError::Protocol(m)) && m@ == "No result in "@ + method@
            + " response"@),
{
    if has_result {
        Ok(())
    } else {
        let a = crate::text::cat("No result in ", method);
        Err(AppError::Protocol(crate::text::cat(a.as_str(), " response")))
    }
}

} // verus!
