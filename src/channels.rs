use vstd::prelude::*;
use crate::protocol::TupleBuffer;

verus! {

#[verifier::external_type_specification]
#[verifier::external_body]
#[verifier::reject_recursive_types(T)]
pub struct ExQueueSender<T>(async_channel::Sender<T>);

#[verifier::external_type_specification]
#[verifier::external_body]
#[verifier::reject_recursive_types(T)]
pub struct ExQueueReceiver<T>(async_channel::Receiver<T>);

#[verifier::external_type_specification]
#[verifier::external_body]
#[verifier::reject_recursive_types(T)]
pub struct ExReplySender<T>(tokio::sync::oneshot::Sender<T>);

#[verifier::external_type_specification]
#[verifier::external_body]
#[verifier::reject_recursive_types(T)]
pub struct ExReplyReceiver<T>(tokio::sync::oneshot::Receiver<T>);

#[verifier::external_type_specification]
#[verifier::external_body]
pub struct ExReplyRecvError(tokio::sync::oneshot::error::RecvError);

/// What the software hands to a sender channel handler.
pub enum ChannelCommand {
    /// A buffer to send.
    Data(TupleBuffer),
    /// Flush the writer and answer whether nothing is pending or in flight.
    Flush(tokio::sync::oneshot::Sender<bool>),
}

/// What became of offering a command to a bounded queue.
pub enum QueueOffer {
    Accepted,
    Full(ChannelCommand),
    Closed(ChannelCommand),
}

/// Relies on `async_channel::Sender::try_send`: it never blocks, and a
/// message that a full or closed queue refuses comes back in the error.
#[verifier::external_body]
fn offer(queue: &async_channel::Sender<ChannelCommand>, command: ChannelCommand) -> (r: QueueOffer)
    ensures
        match r {
            QueueOffer::Full(c) => c == command,
            QueueOffer::Closed(c) => c == command,
            QueueOffer::Accepted => true,
        },
{
    match queue.try_send(command) {
        Ok(()) => QueueOffer::Accepted,
        Err(async_channel::TrySendError::Full(c)) => QueueOffer::Full(c),
        Err(async_channel::TrySendError::Closed(c)) => QueueOffer::Closed(c),
    }
}

/// Relies on `async_channel::Sender::close`: true if this call closed the queue.
#[verifier::external_body]
fn close_sender(queue: &async_channel::Sender<ChannelCommand>) -> (r: bool) {
    queue.close()
}

/// Relies on `tokio::sync::oneshot::channel`: a fresh slot for one reply.
#[verifier::external_body]
fn reply_slot() -> (r: (tokio::sync::oneshot::Sender<bool>, tokio::sync::oneshot::Receiver<bool>)) {
    tokio::sync::oneshot::channel()
}

/// Relies on `async_channel::Sender::send_blocking`: waits for room and
/// queues the command; false if the queue is closed.
#[verifier::external_body]
fn post_blocking(queue: &async_channel::Sender<ChannelCommand>, command: ChannelCommand) -> (r: bool) {
    queue.send_blocking(command).is_ok()
}

/// Relies on `tokio::sync::oneshot::Receiver::blocking_recv`: the reply, or
/// `None` if the handler dropped the request.
#[verifier::external_body]
fn wait_reply(reply: tokio::sync::oneshot::Receiver<bool>) -> (r: Option<bool>) {
    reply.blocking_recv().ok()
}

/// Relies on `async_channel::Receiver::recv_blocking`: the next buffer, or
/// `None` once the queue is closed and empty.
#[verifier::external_body]
fn receive_blocking(queue: &async_channel::Receiver<TupleBuffer>) -> (r: Option<TupleBuffer>) {
    queue.recv_blocking().ok()
}

/// Relies on `async_channel::Receiver::close`: true if this call closed the queue.
#[verifier::external_body]
fn close_receiver(queue: &async_channel::Receiver<TupleBuffer>) -> (r: bool) {
    queue.close()
}

/// Result of [`SenderChannel::try_send_data`].
#[derive(Debug)]
pub enum TrySendDataResult {
    /// The buffer was queued.
    Sent,
    /// The queue is full; the buffer comes back and can be submitted again.
    Full(TupleBuffer),
    /// The channel handler stopped for good; the buffer comes back.
    Closed(TupleBuffer),
}

/// Result of [`ReceiverChannel::receive`].
#[derive(Debug)]
pub enum ReceiverChannelResult {
    Buffer(TupleBuffer),
    Closed,
    Error(String),
}

/// The service has shut down.
#[derive(Clone, Copy, Debug, PartialEq, Eq, Structural)]
pub struct ServiceClosed;

/// The software's end of a sender channel: a bounded queue into its handler.
pub struct SenderChannel {
    queue: async_channel::Sender<ChannelCommand>,
}

impl SenderChannel {
    pub fn from_queue(queue: async_channel::Sender<ChannelCommand>) -> (r: SenderChannel)
        ensures
            r.queue() == queue,
    {
        SenderChannel { queue }
    }

    pub closed spec fn queue(&self) -> async_channel::Sender<ChannelCommand> {
        self.queue
    }

    /// Queues a buffer without blocking. It succeeds while the queue has room,
    /// also before the channel is connected; otherwise the very buffer comes
    /// back, so nothing is lost.
    pub fn try_send_data(&self, buffer: TupleBuffer) -> (r: TrySendDataResult)
        ensures
            match r {
                TrySendDataResult::Full(b) => b == buffer,
                TrySendDataResult::Closed(b) => b == buffer,
                TrySendDataResult::Sent => true,
            },
    {
        match offer(&self.queue, ChannelCommand::Data(buffer)) {
            QueueOffer::Accepted => TrySendDataResult::Sent,
            QueueOffer::Full(ChannelCommand::Data(b)) => TrySendDataResult::Full(b),
            QueueOffer::Closed(ChannelCommand::Data(b)) => TrySendDataResult::Closed(b),
            QueueOffer::Full(ChannelCommand::Flush(_)) | QueueOffer::Closed(ChannelCommand::Flush(_)) => {
                // only a data command was offered
                assert(false);
                TrySendDataResult::Sent
            },
        }
    }

    /// Asks the handler to flush: `Ok(true)` when nothing is pending or in
    /// flight, `Ok(false)` otherwise, `Err` once the service is gone.
    pub fn flush(&self) -> (r: Result<bool, ServiceClosed>) {
        let (slot, reply) = reply_slot();
        if !post_blocking(&self.queue, ChannelCommand::Flush(slot)) {
            return Err(ServiceClosed);
        }
        match wait_reply(reply) {
            Some(done) => Ok(done),
            None => Err(ServiceClosed),
        }
    }

    /// Closes the channel; the handler then sends `Close` to the peer.
    /// Returns whether this call closed it.
    pub fn close(self) -> (r: bool) {
        close_sender(&self.queue)
    }
}

/// The software's end of a receiver channel: a bounded queue out of its handler.
pub struct ReceiverChannel {
    queue: async_channel::Receiver<TupleBuffer>,
}

impl ReceiverChannel {
    pub fn from_queue(queue: async_channel::Receiver<TupleBuffer>) -> (r: ReceiverChannel)
        ensures
            r.queue() == queue,
    {
        ReceiverChannel { queue }
    }

    pub closed spec fn queue(&self) -> async_channel::Receiver<TupleBuffer> {
        self.queue
    }

    /// The next buffer, blocking; `Closed` after a close of either side.
    pub fn receive(&self) -> (r: ReceiverChannelResult)
        ensures
            !(r is Error),
    {
        match receive_blocking(&self.queue) {
            Some(b) => ReceiverChannelResult::Buffer(b),
            None => ReceiverChannelResult::Closed,
        }
    }

    /// Closes the channel; calling it again has no further effect.
    pub fn close(&self) {
        let _ = close_receiver(&self.queue);
    }
}

} // verus!
