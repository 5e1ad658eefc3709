use vstd::prelude::*;
use crate::connection::{ConnectionIdentifier, ThisConnectionIdentifier};

verus! {

/// Names a channel within the namespace of one peer connection.
pub type ChannelIdentifier = String;

/// The acknowledgment key of a buffer: `(origin_id, sequence_number, chunk_number)`.
/// It is unique within one data channel for the channel's whole lifetime.
pub type OriginSequenceNumber = (u64, u64, u64);

/// The payload carried by a data channel.
#[derive(Clone, Debug)]
pub struct TupleBuffer {
    pub sequence_number: u64,
    pub origin_id: u64,
    pub watermark: u64,
    pub chunk_number: u64,
    pub number_of_tuples: u64,
    pub last_chunk: bool,
    pub encoded_data: bool,
    pub encoded_children: Vec<bool>,
    pub data: Vec<u8>,
    pub child_buffers: Vec<Vec<u8>>,
}

impl TupleBuffer {
    /// The acknowledgment key of this buffer.
    pub open spec fn key(&self) -> OriginSequenceNumber {
        (self.origin_id, self.sequence_number, self.chunk_number)
    }

    /// Side payloads are never empty.
    pub open spec fn children_nonempty(&self) -> bool {
        forall|i: int| 0 <= i < self.child_buffers@.len() ==> #[trigger] self.child_buffers@[i]@.len() > 0
    }

    /// Whether every side payload holds at least one byte.
    pub fn has_nonempty_children(&self) -> (r: bool)
        ensures
            r == self.children_nonempty(),
    {
        let mut i: usize = 0;
        while i < self.child_buffers.len()
            invariant
                i <= self.child_buffers@.len(),
                forall|j: int| 0 <= j < i ==> #[trigger] self.child_buffers@[j]@.len() > 0,
            decreases self.child_buffers@.len() - i,
        {
            if self.child_buffers[i].len() == 0 {
                return false;
            }
            i = i + 1;
        }
        true
    }

    pub fn sequence(&self) -> (r: OriginSequenceNumber)
        ensures
            r == self.key(),
    {
        (self.origin_id, self.sequence_number, self.chunk_number)
    }
}

/// First message on every new stream: what the stream is for.
#[derive(Clone, Debug)]
pub enum IdentificationRequest {
    IAmConnection(ThisConnectionIdentifier),
    IAmChannel(ThisConnectionIdentifier, ChannelIdentifier),
}

/// Answer to an [`IdentificationRequest`].
#[derive(Clone, Debug)]
pub enum IdentificationResponse {
    Accepted,
}

/// Control channel, sender to receiver.
#[derive(Clone, Debug)]
pub enum ControlChannelRequest {
    ChannelRequest(ChannelIdentifier),
}

/// Control channel, receiver to sender.
#[derive(Clone, Debug)]
pub enum ControlChannelResponse {
    /// The channel is accepted; the data channel connects to this endpoint.
    OkChannelResponse(ConnectionIdentifier),
    DenyChannelResponse,
}

/// Data channel, sender to receiver.
#[derive(Clone, Debug)]
pub enum DataChannelRequest {
    Data(TupleBuffer),
    Close,
}

/// Data channel, receiver to sender.
#[derive(Clone, Copy, Debug)]
pub enum DataChannelResponse {
    AckData(OriginSequenceNumber),
    NAckData(OriginSequenceNumber),
    Close,
}

} // verus!
