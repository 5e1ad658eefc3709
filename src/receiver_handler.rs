use vstd::prelude::*;
use crate::lifecycle::ChannelHandlerStatus;
use crate::protocol::{DataChannelRequest, DataChannelResponse, OriginSequenceNumber, TupleBuffer};
use crate::sender_window::{keys_of, SenderWindow};

verus! {

/// What the receiver-side handler waits on next.
#[derive(Clone, Copy, Debug, PartialEq, Eq, Structural)]
pub enum ReceiverStep {
    /// Hand the held buffer to the downstream queue (backpressure: nothing is
    /// read from the network meanwhile).
    PushDownstream,
    /// Read the next message of the data channel.
    ReadNetwork,
}

/// What became of handing a buffer to the downstream queue.
#[derive(Clone, Copy, Debug, PartialEq, Eq, Structural)]
pub enum PushOutcome {
    Accepted,
    QueueClosed,
    Cancelled,
}

/// What the handler does after a push.
#[derive(Clone, Copy, Debug)]
pub enum ReceiverAction {
    /// Send `AckData` for the key, then go on.
    Acknowledge(DataChannelResponse),
    /// The software closed its queue: send `Close`, then stop.
    PropagateClose,
    /// Stop with the status.
    Stop(ChannelHandlerStatus),
}

/// The state of one receiver-side data channel: at most one buffer read from
/// the network and not yet handed downstream.
pub struct ReceiverHandler {
    pending_buffer: Option<TupleBuffer>,
    /// Keys of the buffers read from the network, in order.
    received: Ghost<Seq<OriginSequenceNumber>>,
    /// Keys of the buffers handed to the downstream queue, in order.
    delivered: Ghost<Seq<OriginSequenceNumber>>,
}

impl ReceiverHandler {
    pub closed spec fn held(&self) -> Option<TupleBuffer> {
        self.pending_buffer
    }

    pub closed spec fn received(&self) -> Seq<OriginSequenceNumber> {
        self.received@
    }

    pub closed spec fn delivered(&self) -> Seq<OriginSequenceNumber> {
        self.delivered@
    }

    /// Every buffer read is delivered, in order, except the one held.
    pub closed spec fn wf(&self) -> bool {
        match self.pending_buffer {
            Some(b) => self.delivered@.push(b.key()) == self.received@,
            None => self.delivered@ == self.received@,
        }
    }

    pub fn new() -> (r: ReceiverHandler)
        ensures
            r.wf(),
            r.held() is None,
            r.received() == Seq::<OriginSequenceNumber>::empty(),
            r.delivered() == Seq::<OriginSequenceNumber>::empty(),
    {
        ReceiverHandler { pending_buffer: None, received: Ghost(Seq::empty()), delivered: Ghost(Seq::empty()) }
    }

    /// A held buffer goes downstream before anything more is read.
    pub fn next_step(&self) -> (r: ReceiverStep)
        ensures
            r == (if self.held() is Some { ReceiverStep::PushDownstream } else { ReceiverStep::ReadNetwork }),
    {
        match &self.pending_buffer {
            Some(_) => ReceiverStep::PushDownstream,
            None => ReceiverStep::ReadNetwork,
        }
    }

    /// Applies a message read from the data channel: a buffer is held, `Close`
    /// ends the handler.
    pub fn on_message(&mut self, message: DataChannelRequest) -> (r: Option<ChannelHandlerStatus>)
        requires
            old(self).wf(),
            old(self).held() is None,
        ensures
            final(self).wf(),
            final(self).delivered() == old(self).delivered(),
            match message {
                DataChannelRequest::Data(b) => {
                    &&& r is None
                    &&& final(self).held() == Some(b)
                    &&& final(self).received() == old(self).received().push(b.key())
                },
                DataChannelRequest::Close => {
                    &&& r == Some(ChannelHandlerStatus::ClosedByOtherSide)
                    &&& *final(self) == *old(self)
                },
            },
    {
        match message {
            DataChannelRequest::Data(b) => {
                let ghost k = b.key();
                self.received = Ghost(self.received@.push(k));
                self.pending_buffer = Some(b);
                None
            },
            DataChannelRequest::Close => Some(ChannelHandlerStatus::ClosedByOtherSide),
        }
    }

    /// Takes the held buffer to hand it to the downstream queue.
    pub fn take_for_delivery(&mut self) -> (r: Option<TupleBuffer>)
        requires
            old(self).wf(),
        ensures
            final(self).wf(),
            r == old(self).held(),
            final(self).held() is None,
            final(self).received() == old(self).received(),
            match r {
                Some(b) => final(self).delivered() == old(self).delivered().push(b.key()),
                None => final(self).delivered() == old(self).delivered(),
            },
    {
        let r = self.pending_buffer.take();
        match &r {
            Some(b) => {
                let ghost k = b.key();
                self.delivered = Ghost(self.delivered@.push(k));
            },
            None => {},
        }
        r
    }
}

/// What follows a push of the buffer with key `key`: an ack once the queue
/// took it; `Close` to the peer once the software closed its queue.
pub fn after_push(key: OriginSequenceNumber, outcome: PushOutcome) -> (r: ReceiverAction)
    ensures
        match outcome {
            PushOutcome::Accepted => r == ReceiverAction::Acknowledge(DataChannelResponse::AckData(key)),
            PushOutcome::QueueClosed => r == ReceiverAction::PropagateClose,
            PushOutcome::Cancelled => r == ReceiverAction::Stop(ChannelHandlerStatus::Cancelled),
        },
{
    match outcome {
        PushOutcome::Accepted => ReceiverAction::Acknowledge(DataChannelResponse::AckData(key)),
        PushOutcome::QueueClosed => ReceiverAction::PropagateClose,
        PushOutcome::Cancelled => ReceiverAction::Stop(ChannelHandlerStatus::Cancelled),
    }
}

/// Buffers reach the downstream queue in the order the sender's software
/// submitted them, with none repeated or skipped: while the sender saw no nack
/// and acks in departure order, and the stream carried what departed in order
/// and without loss, what was delivered is a prefix of what was submitted.
pub proof fn lemma_delivery_in_submission_order(w: SenderWindow, r: ReceiverHandler)
    requires
        w.wf(),
        w.in_order(),
        r.wf(),
        r.received().len() <= w.departed().len(),
        r.received() == w.departed().subrange(0, r.received().len() as int),
    ensures
        r.delivered().len() <= w.submitted().len(),
        r.delivered() == w.submitted().subrange(0, r.delivered().len() as int),
{
    crate::sender_window::lemma_departure_in_submission_order(w);
    let d = r.delivered();
    let n = d.len() as int;
    assert(n <= r.received().len());
    assert(d == r.received().subrange(0, n)) by {
        if r.held() is Some {
            assert(d =~= r.received().subrange(0, n));
        } else {
            assert(d =~= r.received().subrange(0, n));
        }
    }
    assert(d =~= w.submitted().subrange(0, n));
}

/// After a lost stream and a reconnect, the downstream queue goes on where it
/// stopped: what was delivered, followed by what the sender sends again, is
/// exactly the submitted sequence, so nothing is delivered twice or out of
/// order. This holds when every delivered buffer had been acknowledged before
/// the stream was lost (while the sender saw no nack and acks in departure
/// order).
pub proof fn lemma_reconnect_continues_delivery(before: SenderWindow, after: SenderWindow, r: ReceiverHandler)
    requires
        before.wf(),
        before.in_order(),
        after.wf(),
        after.pending() == before.in_flight() + before.pending(),
        after.in_flight() == Seq::<TupleBuffer>::empty(),
        after.submitted() == before.submitted(),
        after.acked() == before.acked(),
        r.wf(),
        r.delivered() == before.acked(),
    ensures
        r.delivered() + keys_of(after.pending()) == after.submitted(),
{
    crate::sender_window::lemma_reconnect_resumes_after_acked(before, after);
}

} // verus!
