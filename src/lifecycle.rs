use vstd::prelude::*;
use crate::protocol::OriginSequenceNumber;

verus! {

/// Why a channel handler (of either side) stops without an error.
#[derive(Clone, Copy, Debug, PartialEq, Eq, Structural)]
pub enum ChannelHandlerStatus {
    /// The receiver sent `Close`.
    ClosedByOtherSide,
    /// The software closed the channel and `Close` reached the writer.
    ClosedBySoftware,
    /// The software closed the channel but `Close` could not be sent.
    ClosedBySoftwareButFailedToPropagate,
    /// The cancellation token was tripped.
    Cancelled,
}

/// A fault that ends a channel handler; the channel is then retried.
#[derive(Clone, Copy, Debug)]
pub enum HandlerError {
    /// An ack or nack named a key that is not awaiting acknowledgment.
    UnknownSequence(OriginSequenceNumber),
    /// The software submitted a key that is already pending or in flight.
    DuplicateSequence(OriginSequenceNumber),
    /// The data channel's stream failed or ended.
    ConnectionLost,
}

/// How one step of a channel handler ends it, if it does.
#[derive(Clone, Copy, Debug)]
pub enum ErrorOrStatus {
    Error(HandlerError),
    Status(ChannelHandlerStatus),
}

/// What became of the attempt to send `Close` when the software closed a channel.
#[derive(Clone, Copy, Debug, PartialEq, Eq, Structural)]
pub enum CloseSendOutcome {
    Sent,
    Failed,
    Cancelled,
}

/// The status a handler ends with once it tried to send `Close` after the
/// software closed the channel.
pub fn close_propagation_status(outcome: CloseSendOutcome) -> (r: ChannelHandlerStatus)
    ensures
        r == match outcome {
            CloseSendOutcome::Sent => ChannelHandlerStatus::ClosedBySoftware,
            CloseSendOutcome::Failed => ChannelHandlerStatus::ClosedBySoftwareButFailedToPropagate,
            CloseSendOutcome::Cancelled => ChannelHandlerStatus::Cancelled,
        },
{
    match outcome {
        CloseSendOutcome::Sent => ChannelHandlerStatus::ClosedBySoftware,
        CloseSendOutcome::Failed => ChannelHandlerStatus::ClosedBySoftwareButFailedToPropagate,
        CloseSendOutcome::Cancelled => ChannelHandlerStatus::Cancelled,
    }
}

/// Whether the software-close path has to try sending `Close`: only a
/// handler that stopped because the software closed its queue, before it
/// could tell the peer, does.
pub fn needs_close_propagation(status: ChannelHandlerStatus) -> (r: bool)
    ensures
        r == (status == ChannelHandlerStatus::ClosedBySoftwareButFailedToPropagate),
{
    match status {
        ChannelHandlerStatus::ClosedBySoftwareButFailedToPropagate => true,
        _ => false,
    }
}

/// Whether a terminated channel handler is started again: after an error it
/// is (its queue and token survive), after a close or a cancellation it is not.
pub fn should_retry_channel(result: Result<ChannelHandlerStatus, HandlerError>) -> (r: bool)
    ensures
        r == (result is Err),
{
    match result {
        Ok(_) => false,
        Err(_) => true,
    }
}

/// The end of a handler's run as the enclosing task sees it: an error, or a
/// status.
pub fn run_result(stop: ErrorOrStatus) -> (r: Result<ChannelHandlerStatus, HandlerError>)
    ensures
        match stop {
            ErrorOrStatus::Error(e) => r == Err::<ChannelHandlerStatus, HandlerError>(e),
            ErrorOrStatus::Status(s) => r == Ok::<ChannelHandlerStatus, HandlerError>(s),
        },
{
    match stop {
        ErrorOrStatus::Error(e) => Err(e),
        ErrorOrStatus::Status(s) => Ok(s),
    }
}

} // verus!
