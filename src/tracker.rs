use vstd::prelude::*;
use std::collections::HashSet;

verus! {

broadcast use vstd::std_specs::hash::group_hash_axioms;

/// Above this many remembered numbers, the numbers below the lowest unseen
/// one are folded into a single bound.
pub const PRUNE_THRESHOLD: usize = 1000;

proof fn lemma_subset_of_range_len(s: Set<u64>, lo: u64, hi: u64)
    requires
        s.finite(),
        lo <= hi,
        forall|x: u64| s.contains(x) ==> lo < x && x <= hi,
    ensures
        s.len() <= hi - lo,
        (exists|x: u64| lo < x && x <= hi && !s.contains(x)) ==> s.len() < hi - lo,
        (forall|x: u64| lo < x && x <= hi ==> s.contains(x)) ==> s.len() == hi - lo,
    decreases hi - lo,
{
    if hi == lo {
        assert(s =~= Set::<u64>::empty());
    } else {
        let s2 = s.remove(hi);
        lemma_subset_of_range_len(s2, lo, (hi - 1) as u64);
        if s.contains(hi) {
            assert(s2.len() == s.len() - 1);
        } else {
            assert(s2 =~= s);
        }
        if exists|x: u64| lo < x && x <= hi && !s.contains(x) {
            let x = choose|x: u64| lo < x && x <= hi && !s.contains(x);
            if x != hi {
                assert(!s2.contains(x));
            }
        }
    }
}

/// Tracks the positive numbers seen so far and finds the lowest one not seen.
/// The numbers up to `lowest_removed` were all seen and are no longer stored.
pub struct MissingSequenceTracker {
    seen: HashSet<u64>,
    highest_seen: u64,
    lowest_removed: u64,
}

impl MissingSequenceTracker {
    /// Every number seen so far.
    pub closed spec fn contents(&self) -> Set<u64> {
        Set::new(|x: u64| (1 <= x && x <= self.lowest_removed) || self.seen@.contains(x))
    }

    /// The largest number seen, or 0.
    pub closed spec fn highest(&self) -> u64 {
        self.highest_seen
    }

    pub closed spec fn wf(&self) -> bool {
        &&& self.seen@.finite()
        &&& self.lowest_removed <= self.highest_seen
        &&& self.highest_seen < u64::MAX
        &&& forall|x: u64| #[trigger] self.seen@.contains(x) ==> self.lowest_removed < x && x <= self.highest_seen
        &&& (self.highest_seen == 0 || self.contents().contains(self.highest_seen))
    }

    /// The lowest positive number outside `s`.
    pub open spec fn is_lowest_missing(s: Set<u64>, r: u64) -> bool {
        &&& r >= 1
        &&& !s.contains(r)
        &&& forall|x: u64| 1 <= x < r ==> s.contains(x)
    }

    /// An empty tracker.
    pub fn new() -> (r: MissingSequenceTracker)
        ensures
            r.wf(),
            r.contents() == Set::<u64>::empty(),
            r.highest() == 0,
    {
        let r = MissingSequenceTracker { seen: HashSet::new(), highest_seen: 0, lowest_removed: 0 };
        assert(r.contents() =~= Set::<u64>::empty());
        r
    }

    /// Records a number. It must be positive and not seen before (the
    /// producer never repeats one), and below the largest `u64`, so that the
    /// lowest unseen number stays representable.
    pub fn add(&mut self, num: u64)
        requires
            old(self).wf(),
            num > 0,
            num < u64::MAX,
            !old(self).contents().contains(num),
        ensures
            final(self).wf(),
            final(self).contents() == old(self).contents().insert(num),
            final(self).highest() == if num > old(self).highest() { num } else { old(self).highest() },
    {
        let ghost before = self.contents();
        if num > self.highest_seen {
            self.highest_seen = num;
        }
        self.seen.insert(num);
        assert(self.contents() =~= before.insert(num));
        if self.seen.len() > PRUNE_THRESHOLD {
            self.prune();
        }
    }

    /// Forgets the stored numbers below the lowest unseen one.
    fn prune(&mut self)
        requires
            old(self).seen@.finite(),
            old(self).lowest_removed <= old(self).highest_seen,
            old(self).highest_seen < u64::MAX,
            forall|x: u64| #[trigger] old(self).seen@.contains(x) ==> old(self).lowest_removed < x && x <= old(self).highest_seen,
            old(self).highest_seen == 0 || old(self).contents().contains(old(self).highest_seen),
        ensures
            final(self).wf(),
            final(self).contents() == old(self).contents(),
            final(self).highest() == old(self).highest(),
    {
        let lowest = self.query_unchecked();
        // every number below `lowest` was seen; those above the old bound are stored
        let mut i: u64 = self.lowest_removed + 1;
        let ghost before = self.contents();
        let ghost lr = self.lowest_removed;
        while i < lowest
            invariant
                lr + 1 <= i <= lowest,
                lowest >= 1,
                Self::is_lowest_missing(before, lowest),
                self.seen@.finite(),
                self.lowest_removed == lr,
                self.highest_seen == old(self).highest_seen,
                forall|x: u64| #[trigger] self.seen@.contains(x) ==> (old(self).seen@.contains(x) && x >= i),
                forall|x: u64| old(self).seen@.contains(x) && x >= i ==> #[trigger] self.seen@.contains(x),
            decreases lowest - i,
        {
            self.seen.remove(&i);
            i = i + 1;
        }
        self.lowest_removed = lowest - 1;
        proof {
            assert forall|x: u64| before.contains(x) <==> #[trigger] self.contents().contains(x) by {
                if before.contains(x) && x >= lowest {
                    assert(x != lowest);
                }
            }
            assert(self.contents() =~= before);
        }
    }

    /// The lowest positive number not seen yet.
    pub fn query(&self) -> (r: u64)
        requires
            self.wf(),
        ensures
            Self::is_lowest_missing(self.contents(), r),
            r <= self.highest() + 1,
    {
        self.query_unchecked()
    }

    fn query_unchecked(&self) -> (r: u64)
        requires
            self.seen@.finite(),
            self.lowest_removed <= self.highest_seen,
            self.highest_seen < u64::MAX,
            forall|x: u64| #[trigger] self.seen@.contains(x) ==> self.lowest_removed < x && x <= self.highest_seen,
        ensures
            Self::is_lowest_missing(self.contents(), r),
            r <= self.highest_seen + 1,
    {
        let span = self.highest_seen - self.lowest_removed;
        if self.seen.len() as u64 == span {
            proof {
                if exists|x: u64| self.lowest_removed < x && x <= self.highest_seen && !self.seen@.contains(x) {
                    lemma_subset_of_range_len(self.seen@, self.lowest_removed, self.highest_seen);
                }
            }
            return self.highest_seen + 1;
        }
        proof {
            lemma_subset_of_range_len(self.seen@, self.lowest_removed, self.highest_seen);
        }
        let mut i: u64 = 1;
        while i <= span
            invariant
                1 <= i <= span + 1,
                span == self.highest_seen - self.lowest_removed,
                self.highest_seen < u64::MAX,
                self.lowest_removed <= self.highest_seen,
                forall|x: u64| self.lowest_removed < x && x < i + self.lowest_removed ==> #[trigger] self.seen@.contains(x),
            decreases span + 1 - i,
        {
            if !self.seen.contains(&(i + self.lowest_removed)) {
                let r = i + self.lowest_removed;
                proof {
                    assert forall|x: u64| 1 <= x < r implies self.contents().contains(x) by {
                        if x > self.lowest_removed {
                            assert(self.seen@.contains(x));
                        }
                    }
                }
                return r;
            }
            i = i + 1;
        }
        proof {
            assert forall|x: u64| self.lowest_removed < x && x <= self.highest_seen implies self.seen@.contains(x) by {
            }
            assert(self.seen@.len() < span);
        }
        0
    }
}

impl Default for MissingSequenceTracker {
    fn default() -> (r: MissingSequenceTracker)
        ensures
            r.wf(),
            r.contents() == Set::<u64>::empty(),
            r.highest() == 0,
    {
        MissingSequenceTracker::new()
    }
}

} // verus!
