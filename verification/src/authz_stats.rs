//! Counters of how the authorization Bloom filter answered.

use vstd::prelude::*;

verus! {

/// A snapshot of the Bloom filter counters.
#[derive(Clone, Copy, Debug, PartialEq, Eq, Structural)]
pub struct BloomStats {
    /// Checks the filter answered "definitely not present".
    pub definite_negatives: u64,
    /// Checks the filter answered "possibly present".
    pub potential_positives: u64,
    /// Possible positives that the store confirmed.
    pub true_positives: u64,
    /// Possible positives that the store refuted.
    pub false_positives: u64,
}

/// `x + 1`, wrapping at 2^64.
pub open spec fn inc(x: u64) -> u64 {
    if x == u64::MAX {
        0
    } else {
        (x + 1) as u64
    }
}

/// Counts the Bloom filter's answers (each counter wraps at 2^64).
#[derive(Debug)]
pub struct BloomStatsTracker {
    definite_negatives: u64,
    potential_positives: u64,
    true_positives: u64,
    false_positives: u64,
}

impl BloomStatsTracker {
    /// The counters.
    pub closed spec fn counts(&self) -> BloomStats {
        BloomStats {
            definite_negatives: self.definite_negatives,
            potential_positives: self.potential_positives,
            true_positives: self.true_positives,
            false_positives: self.false_positives,
        }
    }

    /// All counters at zero.
    pub fn new() -> (t: Self)
        ensures
            t.counts() == (BloomStats {
                definite_negatives: 0,
                potential_positives: 0,
                true_positives: 0,
                false_positives: 0,
            }),
    {
        BloomStatsTracker {
            definite_negatives: 0,
            potential_positives: 0,
            true_positives: 0,
            false_positives: 0,
        }
    }

    /// Counts a "definitely not present" answer.
    pub fn record_definite_negative(&mut self)
        ensures
            final(self).counts() == (BloomStats {
                definite_negatives: inc(old(self).counts().definite_negatives),
                ..old(self).counts()
            }),
    {
        self.definite_negatives = self.definite_negatives.wrapping_add(1);
    }

    /// Counts a "possibly present" answer.
    pub fn record_potential_positive(&mut self)
        ensures
            final(self).counts() == (BloomStats {
                potential_positives: inc(old(self).counts().potential_positives),
                ..old(self).counts()
            }),
    {
        self.potential_positives = self.potential_positives.wrapping_add(1);
    }

    /// Counts a confirmed possible positive.
    pub fn record_true_positive(&mut self)
        ensures
            final(self).counts() == (BloomStats {
                true_positives: inc(old(self).counts().true_positives),
                ..old(self).counts()
            }),
    {
        self.true_positives = self.true_positives.wrapping_add(1);
    }

    /// Counts a refuted possible positive.
    pub fn record_false_positive(&mut self)
        ensures
            final(self).counts() == (BloomStats {
                false_positives: inc(old(self).counts().false_positives),
                ..old(self).counts()
            }),
    {
        self.false_positives = self.false_positives.wrapping_add(1);
    }

    /// A snapshot of the counters.
    pub fn get_stats(&self) -> (s: BloomStats)
        ensures
            s == self.counts(),
    {
        BloomStats {
            definite_negatives: self.definite_negatives,
            potential_positives: self.potential_positives,
            true_positives: self.true_positives,
            false_positives: self.false_positives,
        }
    }
}

impl Default for BloomStatsTracker {
    fn default() -> (t: Self)
        ensures
            t.counts() == (BloomStats {
                definite_negatives: 0,
                potential_positives: 0,
                true_positives: 0,
                false_positives: 0,
            }),
    {
        BloomStatsTracker::new()
    }
}

} // verus!
