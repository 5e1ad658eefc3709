use vstd::prelude::*;
use crate::connection::ConnectionIdentifier;
use crate::protocol::ChannelIdentifier;

verus! {

/// The map that a list of keyed entries denotes (a later entry wins).
pub open spec fn map_of<K, V>(s: Seq<(K, V)>) -> Map<K, V>
    decreases s.len(),
{
    if s.len() == 0 {
        Map::empty()
    } else {
        map_of(s.drop_last()).insert(s.last().0, s.last().1)
    }
}

pub open spec fn keys_distinct<K, V>(s: Seq<(K, V)>) -> bool {
    forall|i: int, j: int| 0 <= i < s.len() && 0 <= j < s.len() && i != j ==> s[i].0 != s[j].0
}

pub proof fn lemma_map_of_dom<K, V>(s: Seq<(K, V)>, k: K)
    ensures
        map_of(s).dom().contains(k) <==> exists|j: int| 0 <= j < s.len() && s[j].0 == k,
    decreases s.len(),
{
    if s.len() > 0 {
        lemma_map_of_dom(s.drop_last(), k);
        if exists|j: int| 0 <= j < s.len() && s[j].0 == k {
            let j = choose|j: int| 0 <= j < s.len() && s[j].0 == k;
            if j < s.len() - 1 {
                assert(s.drop_last()[j].0 == k);
            }
        }
        if exists|j: int| 0 <= j < s.drop_last().len() && s.drop_last()[j].0 == k {
            let j = choose|j: int| 0 <= j < s.drop_last().len() && s.drop_last()[j].0 == k;
            assert(s[j].0 == k);
        }
    }
}

proof fn lemma_map_of_value<K, V>(s: Seq<(K, V)>, j: int)
    requires
        keys_distinct(s),
        0 <= j < s.len(),
    ensures
        map_of(s).dom().contains(s[j].0),
        map_of(s)[s[j].0] == s[j].1,
    decreases s.len(),
{
    lemma_map_of_dom(s, s[j].0);
    if j < s.len() - 1 {
        lemma_map_of_value(s.drop_last(), j);
        assert(s.drop_last()[j] == s[j]);
        assert(s[j].0 != s.last().0);
    }
}

proof fn lemma_map_of_remove<K, V>(s: Seq<(K, V)>, i: int)
    requires
        keys_distinct(s),
        0 <= i < s.len(),
    ensures
        map_of(s.remove(i)) =~= map_of(s).remove(s[i].0),
        keys_distinct(s.remove(i)),
    decreases s.len(),
{
    let r = s.remove(i);
    assert(keys_distinct(r)) by {
        assert forall|a: int, b: int| 0 <= a < r.len() && 0 <= b < r.len() && a != b implies r[a].0 != r[b].0 by {
            let a0 = if a < i { a } else { a + 1 };
            let b0 = if b < i { b } else { b + 1 };
            assert(r[a] == s[a0] && r[b] == s[b0]);
        }
    }
    if i == s.len() - 1 {
        assert(r =~= s.drop_last());
        lemma_map_of_dom(s.drop_last(), s[i].0);
        if map_of(s.drop_last()).dom().contains(s[i].0) {
            let j = choose|j: int| 0 <= j < s.drop_last().len() && s.drop_last()[j].0 == s[i].0;
            assert(s[j].0 == s[i].0);
        }
    } else {
        let d = s.drop_last();
        assert(keys_distinct(d));
        lemma_map_of_remove(d, i);
        assert(r.drop_last() =~= d.remove(i));
        assert(r.last() == s.last());
        assert(s.last().0 != s[i].0);
    }
}

/// Channels that the software registered and that wait for the peer's
/// `ChannelRequest`, each with what the channel handler will need (`V`).
pub struct RegisteredChannels<V> {
    entries: Vec<(ChannelIdentifier, V)>,
}

pub open spec fn string_keyed<V>(s: Seq<(ChannelIdentifier, V)>) -> Seq<(Seq<char>, V)> {
    s.map_values(|e: (ChannelIdentifier, V)| (e.0@, e.1))
}

impl<V> RegisteredChannels<V> {
    pub closed spec fn view(&self) -> Map<Seq<char>, V> {
        map_of(string_keyed(self.entries@))
    }

    pub closed spec fn wf(&self) -> bool {
        keys_distinct(string_keyed(self.entries@))
    }

    pub fn new() -> (r: RegisteredChannels<V>)
        ensures
            r.wf(),
            r.view() == Map::<Seq<char>, V>::empty(),
    {
        let r = RegisteredChannels { entries: Vec::new() };
        assert(string_keyed(r.entries@) =~= Seq::<(Seq<char>, V)>::empty());
        r
    }

    fn position(&self, channel: &ChannelIdentifier) -> (r: Option<usize>)
        requires
            self.wf(),
        ensures
            match r {
                Some(i) => i < self.entries@.len() && self.entries@[i as int].0@ == channel@,
                None => !self.view().dom().contains(channel@),
            },
    {
        let mut i: usize = 0;
        while i < self.entries.len()
            invariant
                i <= self.entries@.len(),
                forall|j: int| 0 <= j < i ==> self.entries@[j].0@ != channel@,
            decreases self.entries@.len() - i,
        {
            if self.entries[i].0 == *channel {
                return Some(i);
            }
            i = i + 1;
        }
        proof {
            lemma_map_of_dom(string_keyed(self.entries@), channel@);
        }
        None
    }

    /// Registers a channel. A channel that is registered already is refused
    /// and its value handed back.
    pub fn add(&mut self, channel: ChannelIdentifier, value: V) -> (r: Result<(), V>)
        requires
            old(self).wf(),
        ensures
            final(self).wf(),
            old(self).view().dom().contains(channel@) ==> r == Err::<(), V>(value) && final(self).view() == old(self).view(),
            !old(self).view().dom().contains(channel@) ==> r is Ok && final(self).view() == old(self).view().insert(channel@, value),
    {
        match self.position(&channel) {
            Some(i) => {
                proof {
                    lemma_map_of_dom(string_keyed(self.entries@), channel@);
                    assert(string_keyed(self.entries@)[i as int].0 == channel@);
                }
                Err(value)
            },
            None => {
                let ghost old_s = string_keyed(self.entries@);
                let ghost key = channel@;
                self.entries.push((channel, value));
                proof {
                    let s = string_keyed(self.entries@);
                    assert(s =~= old_s.push((key, value)));
                    assert(s.drop_last() =~= old_s);
                    lemma_map_of_dom(old_s, key);
                    assert forall|a: int, b: int| 0 <= a < s.len() && 0 <= b < s.len() && a != b implies s[a].0 != s[b].0 by {
                        if a == s.len() - 1 {
                            assert(old_s[b].0 == s[b].0);
                        } else if b == s.len() - 1 {
                            assert(old_s[a].0 == s[a].0);
                        }
                    }
                }
                Ok(())
            },
        }
    }

    /// Removes a registered channel and returns its value, if it was there.
    pub fn take(&mut self, channel: &ChannelIdentifier) -> (r: Option<V>)
        requires
            old(self).wf(),
        ensures
            final(self).wf(),
            final(self).view() == old(self).view().remove(channel@),
            r == if old(self).view().dom().contains(channel@) { Some(old(self).view()[channel@]) } else { None::<V> },
    {
        match self.position(channel) {
            None => {
                assert(self.view().remove(channel@) =~= self.view());
                None
            },
            Some(i) => {
                let ghost old_s = string_keyed(self.entries@);
                let e = self.entries.remove(i);
                proof {
                    lemma_map_of_value(old_s, i as int);
                    lemma_map_of_remove(old_s, i as int);
                    assert(string_keyed(self.entries@) =~= old_s.remove(i as int));
                }
                Some(e.1)
            },
        }
    }
}

/// The key of a negotiated channel: the peer's endpoint and the channel.
pub type PeerChannelKey = (Seq<char>, u16, Seq<char>);

/// Channels accepted over a control link whose data stream has not arrived
/// yet, keyed by peer and channel, each with the hand-over to its handler (`V`).
pub struct PendingChannels<V> {
    entries: Vec<(ConnectionIdentifier, ChannelIdentifier, V)>,
}

pub open spec fn peer_keyed<V>(s: Seq<(ConnectionIdentifier, ChannelIdentifier, V)>) -> Seq<(PeerChannelKey, V)> {
    s.map_values(|e: (ConnectionIdentifier, ChannelIdentifier, V)| ((e.0.host@, e.0.port, e.1@), e.2))
}

impl<V> PendingChannels<V> {
    pub closed spec fn view(&self) -> Map<PeerChannelKey, V> {
        map_of(peer_keyed(self.entries@))
    }

    pub closed spec fn wf(&self) -> bool {
        keys_distinct(peer_keyed(self.entries@))
    }

    pub fn new() -> (r: PendingChannels<V>)
        ensures
            r.wf(),
            r.view() == Map::<PeerChannelKey, V>::empty(),
    {
        let r = PendingChannels { entries: Vec::new() };
        assert(peer_keyed(r.entries@) =~= Seq::<(PeerChannelKey, V)>::empty());
        r
    }

    fn position(&self, peer: &ConnectionIdentifier, channel: &ChannelIdentifier) -> (r: Option<usize>)
        requires
            self.wf(),
        ensures
            match r {
                Some(i) => i < self.entries@.len() && peer_keyed(self.entries@)[i as int].0 == (peer.host@, peer.port, channel@),
                None => !self.view().dom().contains((peer.host@, peer.port, channel@)),
            },
    {
        let mut i: usize = 0;
        while i < self.entries.len()
            invariant
                i <= self.entries@.len(),
                forall|j: int| 0 <= j < i ==> peer_keyed(self.entries@)[j].0 != (peer.host@, peer.port, channel@),
            decreases self.entries@.len() - i,
        {
            if self.entries[i].0.same_as(peer) && self.entries[i].1 == *channel {
                return Some(i);
            }
            i = i + 1;
        }
        proof {
            lemma_map_of_dom(peer_keyed(self.entries@), (peer.host@, peer.port, channel@));
        }
        None
    }

    /// Records an accepted channel of a peer. One that is recorded already is
    /// refused and its value handed back.
    pub fn add(&mut self, peer: ConnectionIdentifier, channel: ChannelIdentifier, value: V) -> (r: Result<(), V>)
        requires
            old(self).wf(),
        ensures
            final(self).wf(),
            old(self).view().dom().contains((peer.host@, peer.port, channel@)) ==> r == Err::<(), V>(value) && final(self).view() == old(self).view(),
            !old(self).view().dom().contains((peer.host@, peer.port, channel@)) ==> r is Ok && final(self).view() == old(self).view().insert((peer.host@, peer.port, channel@), value),
    {
        match self.position(&peer, &channel) {
            Some(i) => {
                proof {
                    lemma_map_of_dom(peer_keyed(self.entries@), (peer.host@, peer.port, channel@));
                }
                Err(value)
            },
            None => {
                let ghost old_s = peer_keyed(self.entries@);
                let ghost key = (peer.host@, peer.port, channel@);
                self.entries.push((peer, channel, value));
                proof {
                    let s = peer_keyed(self.entries@);
                    assert(s =~= old_s.push((key, value)));
                    assert(s.drop_last() =~= old_s);
                    lemma_map_of_dom(old_s, key);
                    assert forall|a: int, b: int| 0 <= a < s.len() && 0 <= b < s.len() && a != b implies s[a].0 != s[b].0 by {
                        if a == s.len() - 1 {
                            assert(old_s[b].0 == s[b].0);
                        } else if b == s.len() - 1 {
                            assert(old_s[a].0 == s[a].0);
                        }
                    }
                }
                Ok(())
            },
        }
    }

    /// Removes the entry of a peer's channel and returns its value, if it was there.
    pub fn take(&mut self, peer: &ConnectionIdentifier, channel: &ChannelIdentifier) -> (r: Option<V>)
        requires
            old(self).wf(),
        ensures
            final(self).wf(),
            final(self).view() == old(self).view().remove((peer.host@, peer.port, channel@)),
            r == if old(self).view().dom().contains((peer.host@, peer.port, channel@)) { Some(old(self).view()[(peer.host@, peer.port, channel@)]) } else { None::<V> },
    {
        match self.position(peer, channel) {
            None => {
                assert(self.view().remove((peer.host@, peer.port, channel@)) =~= self.view());
                None
            },
            Some(i) => {
                let ghost old_s = peer_keyed(self.entries@);
                let e = self.entries.remove(i);
                proof {
                    lemma_map_of_value(old_s, i as int);
                    lemma_map_of_remove(old_s, i as int);
                    assert(peer_keyed(self.entries@) =~= old_s.remove(i as int));
                }
                Some(e.2)
            },
        }
    }
}

} // verus!
