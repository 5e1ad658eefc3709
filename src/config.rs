use vstd::prelude::*;

verus! {

pub const DEFAULT_SENDER_QUEUE_SIZE: usize = 1024;
pub const DEFAULT_MAX_PENDING_ACKS: usize = 64;
pub const DEFAULT_RECEIVER_QUEUE_SIZE: usize = 10;

/// Options of the two services. A zero size means "use the default".
#[derive(Clone, Copy, Debug, PartialEq, Eq, Structural)]
pub struct ServiceConfig {
    pub sender_queue_size: usize,
    pub max_pending_acks: usize,
    pub receiver_queue_size: usize,
    /// Runtime worker threads of the sender; 0 means all cores.
    pub sender_io_threads: usize,
    /// Runtime worker threads of the receiver; 0 means all cores.
    pub receiver_io_threads: usize,
    /// Use the in-process transport instead of TCP.
    pub use_memcom: bool,
}

pub open spec fn or_default(value: usize, default: usize) -> usize {
    if value == 0 { default } else { value }
}

impl ServiceConfig {
    /// The defaults: queues of 1024 and 10 buffers, a window of 64, all cores, TCP.
    pub fn new() -> (r: ServiceConfig)
        ensures
            r.sender_queue_size == DEFAULT_SENDER_QUEUE_SIZE,
            r.max_pending_acks == DEFAULT_MAX_PENDING_ACKS,
            r.receiver_queue_size == DEFAULT_RECEIVER_QUEUE_SIZE,
            r.sender_io_threads == 0,
            r.receiver_io_threads == 0,
            !r.use_memcom,
    {
        ServiceConfig {
            sender_queue_size: DEFAULT_SENDER_QUEUE_SIZE,
            max_pending_acks: DEFAULT_MAX_PENDING_ACKS,
            receiver_queue_size: DEFAULT_RECEIVER_QUEUE_SIZE,
            sender_io_threads: 0,
            receiver_io_threads: 0,
            use_memcom: false,
        }
    }

    /// Depth of each sender channel's software queue.
    pub fn effective_sender_queue_size(&self) -> (r: usize)
        ensures
            r == or_default(self.sender_queue_size, DEFAULT_SENDER_QUEUE_SIZE),
            r >= 1,
    {
        if self.sender_queue_size == 0 { DEFAULT_SENDER_QUEUE_SIZE } else { self.sender_queue_size }
    }

    /// Size of each sender channel's sliding window.
    pub fn effective_max_pending_acks(&self) -> (r: usize)
        ensures
            r == or_default(self.max_pending_acks, DEFAULT_MAX_PENDING_ACKS),
            r >= 1,
    {
        if self.max_pending_acks == 0 { DEFAULT_MAX_PENDING_ACKS } else { self.max_pending_acks }
    }

    /// Depth of each receiver channel's downstream queue.
    pub fn effective_receiver_queue_size(&self) -> (r: usize)
        ensures
            r == or_default(self.receiver_queue_size, DEFAULT_RECEIVER_QUEUE_SIZE),
            r >= 1,
    {
        if self.receiver_queue_size == 0 { DEFAULT_RECEIVER_QUEUE_SIZE } else { self.receiver_queue_size }
    }
}

/// Whether `count` lies within `expected ± uncertainty` (the lower bound
/// stops at zero).
pub open spec fn within(count: usize, expected: usize, uncertainty: usize) -> bool {
    (expected as int - uncertainty as int) <= count as int && count as int <= expected as int + uncertainty as int
}

fn count_within(count: usize, expected: usize, uncertainty: usize) -> (r: bool)
    ensures
        r == within(count, expected, uncertainty),
{
    let low_ok = expected <= uncertainty || count >= expected - uncertainty;
    let high_ok = count <= expected || count - expected <= uncertainty;
    low_ok && high_ok
}

/// What a test sink expects to receive.
#[derive(Clone, Copy, Debug, PartialEq, Eq, Structural)]
pub struct SinkExpectation {
    pub expected_messages: Option<usize>,
    pub expected_messages_uncertainty: Option<usize>,
    pub expect_close_from_other_side: Option<bool>,
}

/// What a test source expects to send.
#[derive(Clone, Copy, Debug, PartialEq, Eq, Structural)]
pub struct SourceExpectation {
    pub expected_messages: Option<usize>,
    pub expected_messages_uncertainty: Option<usize>,
    pub expect_close_from_other_side: Option<bool>,
}

impl SinkExpectation {
    /// No expectation.
    pub fn new() -> (r: SinkExpectation)
        ensures
            r.expected_messages is None,
            r.expected_messages_uncertainty is None,
            r.expect_close_from_other_side is None,
    {
        SinkExpectation { expected_messages: None, expected_messages_uncertainty: None, expect_close_from_other_side: None }
    }

    /// Whether `count` received messages meet the expectation: always, if no
    /// count is expected; else within the uncertainty (0 if unset).
    pub fn is_met(&self, count: usize) -> (r: bool)
        ensures
            r == match self.expected_messages {
                None => true,
                Some(e) => within(count, e, match self.expected_messages_uncertainty { Some(u) => u, None => 0 }),
            },
    {
        match self.expected_messages {
            None => true,
            Some(e) => {
                let u = match self.expected_messages_uncertainty {
                    Some(u) => u,
                    None => 0,
                };
                count_within(count, e, u)
            },
        }
    }
}

impl SourceExpectation {
    /// No expectation.
    pub fn new() -> (r: SourceExpectation)
        ensures
            r.expected_messages is None,
            r.expected_messages_uncertainty is None,
            r.expect_close_from_other_side is None,
    {
        SourceExpectation { expected_messages: None, expected_messages_uncertainty: None, expect_close_from_other_side: None }
    }

    /// Whether `count` sent messages meet the expectation, as for a sink.
    pub fn is_met(&self, count: usize) -> (r: bool)
        ensures
            r == match self.expected_messages {
                None => true,
                Some(e) => within(count, e, match self.expected_messages_uncertainty { Some(u) => u, None => 0 }),
            },
    {
        match self.expected_messages {
            None => true,
            Some(e) => {
                let u = match self.expected_messages_uncertainty {
                    Some(u) => u,
                    None => 0,
                };
                count_within(count, e, u)
            },
        }
    }
}

} // verus!
