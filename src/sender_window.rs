use vstd::prelude::*;
use vstd::seq_lib::*;
use std::collections::VecDeque;
use crate::protocol::{DataChannelResponse, OriginSequenceNumber, TupleBuffer};
use crate::lifecycle::{ChannelHandlerStatus, ErrorOrStatus, HandlerError};

verus! {

broadcast use vstd::seq_lib::group_to_multiset_ensures;

/// The acknowledgment keys of a sequence of buffers.
pub open spec fn keys_of(s: Seq<TupleBuffer>) -> Seq<OriginSequenceNumber> {
    s.map_values(|b: TupleBuffer| b.key())
}

/// No key occurs twice in `p`, nor twice in `w`, nor in both.
pub open spec fn live_keys_distinct(p: Seq<OriginSequenceNumber>, w: Seq<OriginSequenceNumber>) -> bool {
    &&& p.no_duplicates()
    &&& w.no_duplicates()
    &&& forall|k: OriginSequenceNumber| p.contains(k) ==> !w.contains(k)
}


proof fn lemma_no_dup_remove(s: Seq<OriginSequenceNumber>, i: int)
    requires
        s.no_duplicates(),
        0 <= i < s.len(),
    ensures
        s.remove(i).no_duplicates(),
        forall|k: OriginSequenceNumber| #[trigger] s.remove(i).contains(k) <==> (s.contains(k) && k != s[i]),
{
    let r = s.remove(i);
    assert forall|a: int, b: int| 0 <= a < r.len() && 0 <= b < r.len() && a != b implies r[a] != r[b] by {
        let a0 = if a < i { a } else { a + 1 };
        let b0 = if b < i { b } else { b + 1 };
        assert(r[a] == s[a0] && r[b] == s[b0]);
    }
    assert forall|k: OriginSequenceNumber| #[trigger] r.contains(k) <==> (s.contains(k) && k != s[i]) by {
        if r.contains(k) {
            let a = choose|a: int| 0 <= a < r.len() && r[a] == k;
            let a0 = if a < i { a } else { a + 1 };
            assert(s[a0] == k);
        }
        if s.contains(k) && k != s[i] {
            let a0 = choose|a: int| 0 <= a < s.len() && s[a] == k;
            let a = if a0 < i { a0 } else { a0 - 1 };
            assert(r[a] == k);
        }
    }
}

proof fn lemma_no_dup_push(s: Seq<OriginSequenceNumber>, k: OriginSequenceNumber)
    requires
        s.no_duplicates(),
        !s.contains(k),
    ensures
        s.push(k).no_duplicates(),
        forall|x: OriginSequenceNumber| #[trigger] s.push(k).contains(x) <==> (s.contains(x) || x == k),
{
    let r = s.push(k);
    assert forall|a: int, b: int| 0 <= a < r.len() && 0 <= b < r.len() && a != b implies r[a] != r[b] by {
        if a < s.len() && b == s.len() {
            assert(s.contains(r[a]));
        }
        if b < s.len() && a == s.len() {
            assert(s.contains(r[b]));
        }
    }
    assert forall|x: OriginSequenceNumber| #[trigger] r.contains(x) <==> (s.contains(x) || x == k) by {
        if r.contains(x) {
            let a = choose|a: int| 0 <= a < r.len() && r[a] == x;
            if a < s.len() {
                assert(s[a] == x);
            }
        }
        if s.contains(x) {
            let a = choose|a: int| 0 <= a < s.len() && s[a] == x;
            assert(r[a] == x);
        }
        if x == k {
            assert(r[s.len() as int] == x);
        }
    }
}


proof fn lemma_no_dup_concat(a: Seq<OriginSequenceNumber>, b: Seq<OriginSequenceNumber>)
    requires
        a.no_duplicates(),
        b.no_duplicates(),
        forall|k: OriginSequenceNumber| a.contains(k) ==> !b.contains(k),
    ensures
        (a + b).no_duplicates(),
{
    assert forall|i: int, j: int| 0 <= i < a.len() && 0 <= j < b.len() implies a[i] != b[j] by {
        assert(a.contains(a[i]));
        assert(b.contains(b[j]));
    }
    lemma_no_dup_in_concat(a, b);
}

proof fn lemma_keys_index(s: Seq<TupleBuffer>, i: int)
    requires
        0 <= i < s.len(),
    ensures
        keys_of(s)[i] == s[i].key(),
        keys_of(s).len() == s.len(),
{
}

/// The flow-control state of one sender-side data channel: buffers that the
/// software submitted and that wait to be sent (`pending_writes`, oldest
/// first), and buffers that were fed to the network and wait for an ack
/// (`wait_for_ack`, in the order they departed, at most `max_pending_acks`).
pub struct SenderWindow {
    pending_writes: VecDeque<TupleBuffer>,
    /// At most `max_pending_acks` entries, looked up by key; no key twice.
    wait_for_ack: Vec<TupleBuffer>,
    max_pending_acks: usize,
    /// Keys of every buffer the software submitted, in order.
    submitted: Ghost<Seq<OriginSequenceNumber>>,
    /// Keys of every ack received, in order.
    acked: Ghost<Seq<OriginSequenceNumber>>,
    /// Keys of the departed buffers, in order; a reconnect restarts it from
    /// the acknowledged ones, as the rest is sent again.
    departed: Ghost<Seq<OriginSequenceNumber>>,
    /// No nack has come and every ack was for the oldest buffer in flight.
    in_order: Ghost<bool>,
}

impl SenderWindow {
    pub closed spec fn pending(&self) -> Seq<TupleBuffer> {
        self.pending_writes@
    }

    pub closed spec fn in_flight(&self) -> Seq<TupleBuffer> {
        self.wait_for_ack@
    }

    pub closed spec fn window(&self) -> nat {
        self.max_pending_acks as nat
    }

    pub closed spec fn submitted(&self) -> Seq<OriginSequenceNumber> {
        self.submitted@
    }

    pub closed spec fn acked(&self) -> Seq<OriginSequenceNumber> {
        self.acked@
    }

    pub closed spec fn departed(&self) -> Seq<OriginSequenceNumber> {
        self.departed@
    }

    pub closed spec fn in_order(&self) -> bool {
        self.in_order@
    }

    /// The window's invariant.
    pub closed spec fn wf(&self) -> bool {
        &&& 1 <= self.max_pending_acks
        &&& self.wait_for_ack@.len() <= self.max_pending_acks
        &&& live_keys_distinct(keys_of(self.pending_writes@), keys_of(self.wait_for_ack@))
        &&& self.submitted@.to_multiset() =~= keys_of(self.pending_writes@).to_multiset().add(
            keys_of(self.wait_for_ack@).to_multiset(),
        ).add(self.acked@.to_multiset())
        &&& self.in_order@ ==> {
            &&& self.departed@ == self.acked@ + keys_of(self.wait_for_ack@)
            &&& self.departed@ + keys_of(self.pending_writes@) == self.submitted@
        }
    }

    /// An empty window of the given size.
    pub fn new(max_pending_acks: usize) -> (r: SenderWindow)
        requires
            max_pending_acks >= 1,
        ensures
            r.wf(),
            r.window() == max_pending_acks,
            r.pending() == Seq::<TupleBuffer>::empty(),
            r.in_flight() == Seq::<TupleBuffer>::empty(),
            r.submitted() == Seq::<OriginSequenceNumber>::empty(),
            r.acked() == Seq::<OriginSequenceNumber>::empty(),
            r.departed() == Seq::<OriginSequenceNumber>::empty(),
            r.in_order(),
    {
        let r = SenderWindow {
            pending_writes: VecDeque::new(),
            wait_for_ack: Vec::new(),
            max_pending_acks,
            submitted: Ghost(Seq::empty()),
            acked: Ghost(Seq::empty()),
            departed: Ghost(Seq::empty()),
            in_order: Ghost(true),
        };
        proof {
            assert(keys_of(r.pending_writes@) =~= Seq::<OriginSequenceNumber>::empty());
            assert(keys_of(r.wait_for_ack@) =~= Seq::<OriginSequenceNumber>::empty());
            assert(r.departed@ + keys_of(r.pending_writes@) =~= r.submitted@);
            assert(r.departed@ =~= r.acked@ + keys_of(r.wait_for_ack@));
        }
        r
    }

    /// Number of buffers waiting to be sent.
    pub fn pending_len(&self) -> (r: usize)
        ensures
            r == self.pending().len(),
    {
        self.pending_writes.len()
    }

    /// Number of buffers sent and awaiting acknowledgment.
    pub fn in_flight_len(&self) -> (r: usize)
        ensures
            r == self.in_flight().len(),
    {
        self.wait_for_ack.len()
    }

    /// The window size.
    pub fn max_pending_acks(&self) -> (r: usize)
        ensures
            r == self.window(),
    {
        self.max_pending_acks
    }


    /// Whether `k` is pending or in flight.
    pub open spec fn is_live(&self, k: OriginSequenceNumber) -> bool {
        keys_of(self.pending()).contains(k) || keys_of(self.in_flight()).contains(k)
    }

    /// The software side is read only while the window has room.
    pub open spec fn reads_software(&self) -> bool {
        self.in_flight().len() < self.window()
    }

    /// The network side is read only while buffers await an ack.
    pub open spec fn reads_other_side(&self) -> bool {
        self.in_flight().len() > 0
    }

    /// A buffer is sent while one is pending and the window has room.
    pub open spec fn sends_pending(&self) -> bool {
        self.pending().len() > 0 && self.in_flight().len() < self.window()
    }

    pub fn should_read_from_software(&self) -> (r: bool)
        ensures
            r == self.reads_software(),
    {
        self.wait_for_ack.len() < self.max_pending_acks
    }

    pub fn should_read_from_other_side(&self) -> (r: bool)
        ensures
            r == self.reads_other_side(),
    {
        self.wait_for_ack.len() > 0
    }

    pub fn should_send_pending(&self) -> (r: bool)
        ensures
            r == self.sends_pending(),
    {
        self.pending_writes.len() > 0 && self.wait_for_ack.len() < self.max_pending_acks
    }

    /// Whether the codec must be flushed before waiting: when nothing is sent
    /// in this round, buffers already fed would otherwise never reach the peer.
    pub fn should_flush_first(&self) -> (r: bool)
        ensures
            r == !self.sends_pending(),
    {
        !self.should_send_pending()
    }

    /// The buffer to feed next, left in place: it moves to the in-flight
    /// buffers only through [`SenderWindow::commit_front`], after the feed
    /// succeeded, so a cancelled or failed feed loses nothing.
    pub fn next_to_send(&self) -> (r: Option<&TupleBuffer>)
        ensures
            match r {
                Some(b) => self.sends_pending() && *b == self.pending()[0],
                None => !self.sends_pending(),
            },
    {
        if self.should_send_pending() {
            Some(&self.pending_writes[0])
        } else {
            None
        }
    }

    /// Position of the in-flight buffer with key `k`.
    fn find_in_flight(&self, k: OriginSequenceNumber) -> (r: Option<usize>)
        ensures
            match r {
                Some(i) => i < self.in_flight().len() && self.in_flight()[i as int].key() == k,
                None => !keys_of(self.in_flight()).contains(k),
            },
    {
        let mut i: usize = 0;
        while i < self.wait_for_ack.len()
            invariant
                i <= self.wait_for_ack@.len(),
                forall|j: int| 0 <= j < i ==> self.wait_for_ack@[j].key() != k,
            decreases self.wait_for_ack@.len() - i,
        {
            let s = self.wait_for_ack[i].sequence();
            if s.0 == k.0 && s.1 == k.1 && s.2 == k.2 {
                return Some(i);
            }
            i = i + 1;
        }
        proof {
            if keys_of(self.wait_for_ack@).contains(k) {
                let j = choose|j: int| 0 <= j < keys_of(self.wait_for_ack@).len() && keys_of(self.wait_for_ack@)[j] == k;
                lemma_keys_index(self.wait_for_ack@, j);
            }
        }
        None
    }

    /// Whether the pending buffers hold key `k`.
    fn pending_contains(&self, k: OriginSequenceNumber) -> (r: bool)
        ensures
            r == keys_of(self.pending()).contains(k),
    {
        let mut i: usize = 0;
        while i < self.pending_writes.len()
            invariant
                i <= self.pending_writes@.len(),
                forall|j: int| 0 <= j < i ==> self.pending_writes@[j].key() != k,
            decreases self.pending_writes@.len() - i,
        {
            let s = self.pending_writes[i].sequence();
            if s.0 == k.0 && s.1 == k.1 && s.2 == k.2 {
                proof {
                    lemma_keys_index(self.pending_writes@, i as int);
                }
                return true;
            }
            i = i + 1;
        }
        proof {
            if keys_of(self.pending_writes@).contains(k) {
                let j = choose|j: int| 0 <= j < keys_of(self.pending_writes@).len() && keys_of(self.pending_writes@)[j] == k;
                lemma_keys_index(self.pending_writes@, j);
            }
        }
        false
    }

    /// Takes a buffer from the software. A key that is already pending or in
    /// flight is a fatal logic error of the producer: it is refused and the
    /// window is left as it was.
    pub fn submit(&mut self, buffer: TupleBuffer) -> (r: Result<(), HandlerError>)
        requires
            old(self).wf(),
        ensures
            final(self).wf(),
            old(self).is_live(buffer.key()) ==> {
                &&& r == Err::<(), HandlerError>(HandlerError::DuplicateSequence(buffer.key()))
                &&& *final(self) == *old(self)
            },
            !old(self).is_live(buffer.key()) ==> {
                &&& r is Ok
                &&& final(self).pending() == old(self).pending().push(buffer)
                &&& final(self).in_flight() == old(self).in_flight()
                &&& final(self).submitted() == old(self).submitted().push(buffer.key())
                &&& final(self).acked() == old(self).acked()
                &&& final(self).departed() == old(self).departed()
                &&& final(self).in_order() == old(self).in_order()
                &&& final(self).window() == old(self).window()
            },
    {
        let k = buffer.sequence();
        if self.pending_contains(k) {
            return Err(HandlerError::DuplicateSequence(k));
        }
        match self.find_in_flight(k) {
            Some(i) => {
                proof {
                    lemma_keys_index(self.wait_for_ack@, i as int);
                }
                return Err(HandlerError::DuplicateSequence(k));
            },
            None => {},
        }
        let ghost pk = keys_of(self.pending_writes@);
        let ghost wk = keys_of(self.wait_for_ack@);
        self.pending_writes.push_back(buffer);
        self.submitted = Ghost(self.submitted@.push(k));
        proof {
            assert(keys_of(self.pending_writes@) =~= pk.push(k));
            lemma_no_dup_push(pk, k);
            assert(self.departed@ + keys_of(self.pending_writes@) =~= (self.departed@ + pk).push(k));
        }
        Ok(())
    }

    /// Records that the codec accepted the buffer of [`SenderWindow::next_to_send`]:
    /// it leaves the pending buffers and awaits its ack. Its key cannot be in
    /// flight already.
    pub fn commit_front(&mut self)
        requires
            old(self).wf(),
            old(self).sends_pending(),
        ensures
            final(self).wf(),
            final(self).pending() == old(self).pending().subrange(1, old(self).pending().len() as int),
            final(self).in_flight() == old(self).in_flight().push(old(self).pending()[0]),
            final(self).submitted() == old(self).submitted(),
            final(self).acked() == old(self).acked(),
            final(self).departed() == old(self).departed().push(old(self).pending()[0].key()),
            final(self).in_order() == old(self).in_order(),
            final(self).window() == old(self).window(),
    {
        let ghost pk = keys_of(self.pending_writes@);
        let ghost wk = keys_of(self.wait_for_ack@);
        let ghost old_pending = self.pending_writes@;
        let buffer = self.pending_writes.pop_front();
        match buffer {
            Some(b) => {
                let ghost k = b.key();
                proof {
                    lemma_keys_index(old_pending, 0);
                    assert(pk.contains(k));
                    // the key of the buffer that departs is not yet awaiting an ack
                    assert(!wk.contains(k));
                }
                self.wait_for_ack.push(b);
                self.departed = Ghost(self.departed@.push(k));
                proof {
                    assert(keys_of(self.pending_writes@) =~= pk.remove(0));
                    assert(keys_of(self.wait_for_ack@) =~= wk.push(k));
                    lemma_no_dup_remove(pk, 0);
                    lemma_no_dup_push(wk, k);
                    assert(self.departed@ + keys_of(self.pending_writes@) =~= old(self).departed@ + pk);
                    if self.in_order@ {
                        assert(old(self).departed@ == old(self).acked@ + wk);
                        assert(self.departed@ =~= self.acked@ + keys_of(self.wait_for_ack@));
                    }
                }
            },
            None => {},
        }
    }

    /// Applies a response of the receiver. `Close` ends the handler; an ack
    /// retires the in-flight buffer with that key; a nack moves it to the back
    /// of the pending buffers. An ack or nack for a key that is not in flight
    /// is a protocol error. On every error the window is left as it was.
    pub fn handle_response(&mut self, response: DataChannelResponse) -> (r: Result<(), ErrorOrStatus>)
        requires
            old(self).wf(),
        ensures
            final(self).wf(),
            final(self).window() == old(self).window(),
            final(self).submitted() == old(self).submitted(),
            r is Err ==> *final(self) == *old(self),
            match response {
                DataChannelResponse::Close => r == Err::<(), ErrorOrStatus>(
                    ErrorOrStatus::Status(ChannelHandlerStatus::ClosedByOtherSide),
                ),
                DataChannelResponse::AckData(k) => if keys_of(old(self).in_flight()).contains(k) {
                    &&& r is Ok
                    &&& exists|i: int|
                        0 <= i < old(self).in_flight().len() && old(self).in_flight()[i].key() == k
                            && final(self).in_flight() == old(self).in_flight().remove(i)
                            && final(self).in_order() == (old(self).in_order() && i == 0)
                    &&& final(self).pending() == old(self).pending()
                    &&& final(self).acked() == old(self).acked().push(k)
                    &&& final(self).departed() == old(self).departed()
                } else {
                    r == Err::<(), ErrorOrStatus>(ErrorOrStatus::Error(HandlerError::UnknownSequence(k)))
                },
                DataChannelResponse::NAckData(k) => if keys_of(old(self).in_flight()).contains(k) {
                    &&& r is Ok
                    &&& exists|i: int|
                        0 <= i < old(self).in_flight().len() && old(self).in_flight()[i].key() == k
                            && final(self).in_flight() == old(self).in_flight().remove(i)
                            && final(self).pending() == old(self).pending().push(old(self).in_flight()[i])
                    &&& final(self).acked() == old(self).acked()
                    &&& !final(self).in_order()
                } else {
                    r == Err::<(), ErrorOrStatus>(ErrorOrStatus::Error(HandlerError::UnknownSequence(k)))
                },
            },
    {
        match response {
            DataChannelResponse::Close => Err(ErrorOrStatus::Status(ChannelHandlerStatus::ClosedByOtherSide)),
            DataChannelResponse::AckData(k) => {
                match self.find_in_flight(k) {
                    None => Err(ErrorOrStatus::Error(HandlerError::UnknownSequence(k))),
                    Some(i) => {
                        let ghost pk = keys_of(self.pending_writes@);
                        let ghost wk = keys_of(self.wait_for_ack@);
                        let ghost old_wait = self.wait_for_ack@;
                        let _ = self.wait_for_ack.remove(i);
                        self.acked = Ghost(self.acked@.push(k));
                        let ghost still_in_order: bool = self.in_order@ && i == 0;
                        self.in_order = Ghost(still_in_order);
                        proof {
                            lemma_keys_index(old_wait, i as int);
                            assert(keys_of(self.wait_for_ack@) =~= wk.remove(i as int));
                            lemma_no_dup_remove(wk, i as int);
                            assert(wk.remove(i as int).to_multiset() == wk.to_multiset().remove(k));
                            assert(wk.to_multiset().count(k) > 0);
                            if self.in_order@ {
                                assert(old(self).acked@ + wk =~= self.acked@ + wk.remove(0));
                            }
                        }
                        Ok(())
                    },
                }
            },
            DataChannelResponse::NAckData(k) => {
                match self.find_in_flight(k) {
                    None => Err(ErrorOrStatus::Error(HandlerError::UnknownSequence(k))),
                    Some(i) => {
                        let ghost pk = keys_of(self.pending_writes@);
                        let ghost wk = keys_of(self.wait_for_ack@);
                        let ghost old_wait = self.wait_for_ack@;
                        let b = self.wait_for_ack.remove(i);
                        self.pending_writes.push_back(b);
                        self.in_order = Ghost(false);
                        proof {
                            lemma_keys_index(old_wait, i as int);
                            assert(keys_of(self.wait_for_ack@) =~= wk.remove(i as int));
                            assert(keys_of(self.pending_writes@) =~= pk.push(k));
                            lemma_no_dup_remove(wk, i as int);
                            assert(wk.contains(k));
                            assert(!pk.contains(k));
                            lemma_no_dup_push(pk, k);
                            assert(wk.remove(i as int).to_multiset() == wk.to_multiset().remove(k));
                            assert(wk.to_multiset().count(k) > 0);
                        }
                        Ok(())
                    },
                }
            },
        }
    }

    /// Prepares the state for a fresh data stream after the old one was lost:
    /// the buffers that await an ack go back in front of the pending ones, in
    /// the order they departed, to be sent again with their keys unchanged.
    pub fn requeue_unacked(&mut self)
        requires
            old(self).wf(),
        ensures
            final(self).wf(),
            final(self).pending() == old(self).in_flight() + old(self).pending(),
            final(self).in_flight() == Seq::<TupleBuffer>::empty(),
            final(self).submitted() == old(self).submitted(),
            final(self).acked() == old(self).acked(),
            final(self).departed() == old(self).acked(),
            final(self).in_order() == old(self).in_order(),
            final(self).window() == old(self).window(),
    {
        let ghost pk = keys_of(self.pending_writes@);
        let ghost wk = keys_of(self.wait_for_ack@);
        let ghost old_pending = self.pending_writes@;
        let ghost old_wait = self.wait_for_ack@;
        let mut unacked: Vec<TupleBuffer> = Vec::new();
        std::mem::swap(&mut unacked, &mut self.wait_for_ack);
        assert(unacked@ =~= old_wait.subrange(0, unacked@.len() as int));
        while unacked.len() > 0
            invariant
                unacked@.len() <= old_wait.len(),
                unacked@ == old_wait.subrange(0, unacked@.len() as int),
                self.pending_writes@ == old_wait.subrange(unacked@.len() as int, old_wait.len() as int) + old_pending,
                self.wait_for_ack@ == Seq::<TupleBuffer>::empty(),
                self.max_pending_acks == old(self).max_pending_acks,
                self.submitted == old(self).submitted,
                self.acked == old(self).acked,
                self.departed == old(self).departed,
                self.in_order == old(self).in_order,
            decreases unacked@.len(),
        {
            let ghost n = unacked@.len() as int;
            match unacked.pop() {
                Some(b) => {
                    self.pending_writes.push_front(b);
                    proof {
                        assert(unacked@ =~= old_wait.subrange(0, n - 1));
                        assert(self.pending_writes@ =~= old_wait.subrange(n - 1, old_wait.len() as int) + old_pending);
                    }
                },
                None => {},
            }
        }
        self.departed = Ghost(self.acked@);
        proof {
            assert(self.pending_writes@ =~= old_wait + old_pending);
            assert(keys_of(self.pending_writes@) =~= wk + pk);
            assert(keys_of(self.wait_for_ack@) =~= Seq::<OriginSequenceNumber>::empty());
            lemma_multiset_commutative(wk, pk);
            lemma_no_dup_concat(wk, pk);
            assert(self.departed@ =~= self.acked@ + keys_of(self.wait_for_ack@));
            if self.in_order@ {
                assert(self.departed@ + keys_of(self.pending_writes@) =~= old(self).departed@ + pk);
            }
        }
    }

    /// What a flush reports: whether nothing is pending and nothing awaits an
    /// ack. When it holds, every buffer ever submitted has been acknowledged.
    pub fn flush_status(&self) -> (r: bool)
        requires
            self.wf(),
        ensures
            r == (self.pending().len() == 0 && self.in_flight().len() == 0),
            r ==> self.submitted().to_multiset() =~= self.acked().to_multiset(),
    {
        let r = self.pending_writes.len() == 0 && self.wait_for_ack.len() == 0;
        proof {
            if r {
                assert(keys_of(self.pending_writes@) =~= Seq::<OriginSequenceNumber>::empty());
                assert(keys_of(self.wait_for_ack@) =~= Seq::<OriginSequenceNumber>::empty());
            }
        }
        r
    }
}

} // verus!

verus! {

/// The window never holds more buffers in flight than its size.
pub proof fn lemma_window_bounded(w: SenderWindow)
    requires
        w.wf(),
    ensures
        w.in_flight().len() <= w.window(),
{
}

/// No key is both pending and in flight, and no submitted buffer is lost:
/// every submission is pending, in flight, or acknowledged.
pub proof fn lemma_nothing_twice_nothing_lost(w: SenderWindow)
    requires
        w.wf(),
    ensures
        forall|k: OriginSequenceNumber| keys_of(w.pending()).contains(k) ==> !keys_of(w.in_flight()).contains(k),
        w.submitted().to_multiset() =~= keys_of(w.pending()).to_multiset().add(
            keys_of(w.in_flight()).to_multiset(),
        ).add(w.acked().to_multiset()),
{
}

/// The buffer that departs next never has the key of one already in flight,
/// so moving it to the in-flight buffers never meets a duplicate.
pub proof fn lemma_departing_key_is_fresh(w: SenderWindow)
    requires
        w.wf(),
        w.sends_pending(),
    ensures
        !keys_of(w.in_flight()).contains(w.pending()[0].key()),
{
    lemma_keys_index(w.pending(), 0);
    assert(keys_of(w.pending()).contains(w.pending()[0].key()));
}

/// When nothing is pending or in flight, every submitted buffer has been
/// acknowledged by the peer.
pub proof fn lemma_drained_means_acknowledged(w: SenderWindow)
    requires
        w.wf(),
        w.pending().len() == 0,
        w.in_flight().len() == 0,
    ensures
        w.submitted().to_multiset() =~= w.acked().to_multiset(),
{
    assert(keys_of(w.pending()) =~= Seq::<OriginSequenceNumber>::empty());
    assert(keys_of(w.in_flight()) =~= Seq::<OriginSequenceNumber>::empty());
}

/// While no nack came and acks came in departure order, the buffers depart in
/// the order of submission, and what is acknowledged, in flight and pending is
/// the submitted sequence itself.
pub proof fn lemma_departure_in_submission_order(w: SenderWindow)
    requires
        w.wf(),
        w.in_order(),
    ensures
        w.departed() + keys_of(w.pending()) == w.submitted(),
        w.acked() + keys_of(w.in_flight()) + keys_of(w.pending()) == w.submitted(),
        w.departed().len() <= w.submitted().len(),
        w.departed() == w.submitted().subrange(0, w.departed().len() as int),
{
    assert(w.submitted().subrange(0, w.departed().len() as int) =~= w.departed());
}

/// After a lost stream, the window sends again exactly the submitted buffers
/// that follow the acknowledged ones, in submission order: none is lost and
/// none is reordered (while no nack came and acks came in departure order).
pub proof fn lemma_reconnect_resumes_after_acked(before: SenderWindow, after: SenderWindow)
    requires
        before.wf(),
        before.in_order(),
        after.wf(),
        after.pending() == before.in_flight() + before.pending(),
        after.in_flight() == Seq::<TupleBuffer>::empty(),
        after.submitted() == before.submitted(),
        after.acked() == before.acked(),
    ensures
        before.acked() + keys_of(after.pending()) == after.submitted(),
{
    assert(keys_of(after.pending()) =~= keys_of(before.in_flight()) + keys_of(before.pending()));
    assert(before.acked() + keys_of(before.in_flight()) + keys_of(before.pending()) =~= before.acked() + (keys_of(before.in_flight()) + keys_of(before.pending())));
}

} // verus!
