use vstd::prelude::*;
use crate::connection::{ConnectionIdentifier, ThisConnectionIdentifier};
use crate::protocol::{ChannelIdentifier, ControlChannelResponse, IdentificationRequest};

verus! {

/// What the sender's negotiator read back after sending `ChannelRequest`.
#[derive(Clone, Debug)]
pub enum ControlReply {
    /// The request could not be written.
    SendFailed,
    /// The stream ended before a reply.
    StreamClosed,
    /// A frame arrived but did not decode.
    DecodeFailed,
    Response(ControlChannelResponse),
}

/// The outcome of one channel negotiation over the control link.
#[derive(Clone, Debug)]
pub enum EstablishChannelResult {
    /// Accepted; the data channel connects to this endpoint.
    Established(ConnectionIdentifier),
    /// The receiver has not registered the channel (yet).
    ChannelReject,
    /// The control link failed; it is presumed dead.
    BadConnection(ChannelIdentifier),
}

/// Interprets the reply to `ChannelRequest(channel_id)`.
pub fn establish_outcome(channel_id: ChannelIdentifier, reply: ControlReply) -> (r: EstablishChannelResult)
    ensures
        match reply {
            ControlReply::Response(ControlChannelResponse::OkChannelResponse(target)) =>
                r == EstablishChannelResult::Established(target),
            ControlReply::Response(ControlChannelResponse::DenyChannelResponse) =>
                r == EstablishChannelResult::ChannelReject,
            _ => r == EstablishChannelResult::BadConnection(channel_id),
        },
{
    match reply {
        ControlReply::Response(ControlChannelResponse::OkChannelResponse(target)) => EstablishChannelResult::Established(target),
        ControlReply::Response(ControlChannelResponse::DenyChannelResponse) => EstablishChannelResult::ChannelReject,
        _ => EstablishChannelResult::BadConnection(channel_id),
    }
}

/// Whether the negotiator keeps its control link for the next request; after
/// an I/O failure it fetches a new one from the keepalive task.
pub fn keeps_control_link(result: &EstablishChannelResult) -> (r: bool)
    ensures
        r == !(*result is BadConnection),
{
    match result {
        EstablishChannelResult::BadConnection(_) => false,
        _ => true,
    }
}

/// The next move of a channel registration attempt.
#[derive(Clone, Debug)]
pub enum RegistrationAction {
    /// Start the sender channel handler against this endpoint.
    SpawnHandler(ConnectionIdentifier),
    /// Try again after the next backoff delay.
    RetryAfterBackoff,
    /// The negotiator is gone (the service shuts down): stop silently.
    GiveUp,
}

/// Decides on the negotiator's answer, `None` when the negotiator is gone:
/// acceptance starts the handler, rejection and bad links are transient.
pub fn registration_step(result: Option<EstablishChannelResult>) -> (r: RegistrationAction)
    ensures
        match result {
            None => r == RegistrationAction::GiveUp,
            Some(EstablishChannelResult::Established(target)) => r == RegistrationAction::SpawnHandler(target),
            Some(_) => r == RegistrationAction::RetryAfterBackoff,
        },
{
    match result {
        None => RegistrationAction::GiveUp,
        Some(EstablishChannelResult::Established(target)) => RegistrationAction::SpawnHandler(target),
        Some(_) => RegistrationAction::RetryAfterBackoff,
    }
}

/// Where an identified inbound stream goes.
#[derive(Clone, Debug)]
pub enum StreamRoute {
    /// A control link from this peer.
    Control(ConnectionIdentifier),
    /// The data stream of a negotiated channel of this peer.
    Data(ConnectionIdentifier, ChannelIdentifier),
}

/// Routes a stream by its identification request.
pub fn route_stream(request: IdentificationRequest) -> (r: StreamRoute)
    ensures
        match request {
            IdentificationRequest::IAmConnection(this) => r == StreamRoute::Control(this.id),
            IdentificationRequest::IAmChannel(this, channel) => r == StreamRoute::Data(this.id, channel),
        },
{
    match request {
        IdentificationRequest::IAmConnection(this) => StreamRoute::Control(this.into_connection()),
        IdentificationRequest::IAmChannel(this, channel) => StreamRoute::Data(this.into_connection(), channel),
    }
}

/// The receiver's reply to `ChannelRequest`: accepted exactly when the
/// channel was registered, pointing the sender at this endpoint.
pub fn channel_request_reply(registered: bool, this: &ThisConnectionIdentifier) -> (r: ControlChannelResponse)
    ensures
        registered ==> r == ControlChannelResponse::OkChannelResponse(this.id),
        !registered ==> r == ControlChannelResponse::DenyChannelResponse,
{
    if registered {
        ControlChannelResponse::OkChannelResponse(this.id.clone_id())
    } else {
        ControlChannelResponse::DenyChannelResponse
    }
}

/// Most connection attempts of the in-process transport to an endpoint that
/// is not bound yet.
pub const MEMCOM_CONNECT_ATTEMPTS: u32 = 10;

/// The next move of an in-process connect.
#[derive(Clone, Copy, Debug, PartialEq, Eq, Structural)]
pub enum ConnectStep {
    Connect,
    RetryAfterBackoff,
    GiveUp,
}

/// Decides after looking the endpoint up in attempt `attempt` (from 0).
pub fn memcom_connect_step(attempt: u32, bound: bool) -> (r: ConnectStep)
    ensures
        bound ==> r == ConnectStep::Connect,
        !bound && attempt + 1 < MEMCOM_CONNECT_ATTEMPTS ==> r == ConnectStep::RetryAfterBackoff,
        !bound && attempt + 1 >= MEMCOM_CONNECT_ATTEMPTS ==> r == ConnectStep::GiveUp,
{
    if bound {
        ConnectStep::Connect
    } else if attempt < MEMCOM_CONNECT_ATTEMPTS - 1 {
        ConnectStep::RetryAfterBackoff
    } else {
        ConnectStep::GiveUp
    }
}

} // verus!
