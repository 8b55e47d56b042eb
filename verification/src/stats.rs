//! Counters of a run.

use vstd::prelude::*;

verus! {

/// What one output, or one job, has done so far.
#[derive(Clone, Copy, Debug, PartialEq, Eq, Structural)]
pub struct ExecutorStats {
    pub packets_read: u64,
    pub packets_copied: u64,
    pub packets_encoded: u64,
    pub frames_decoded: u64,
    pub frames_written: u64,
    /// Packets that the decoder gave up without a frame.
    pub packets_skipped: u64,
}

impl Default for ExecutorStats {
    fn default() -> (r: Self)
        ensures
            r == ExecutorStats::zero(),
    {
        ExecutorStats {
            packets_read: 0,
            packets_copied: 0,
            packets_encoded: 0,
            frames_decoded: 0,
            frames_written: 0,
            packets_skipped: 0,
        }
    }
}

impl ExecutorStats {
    /// Nothing done yet.
    pub open spec fn zero() -> ExecutorStats {
        ExecutorStats {
            packets_read: 0,
            packets_copied: 0,
            packets_encoded: 0,
            frames_decoded: 0,
            frames_written: 0,
            packets_skipped: 0,
        }
    }

    /// Whether every counter of both together can be represented.
    pub open spec fn can_merge(self, other: ExecutorStats) -> bool {
        &&& self.packets_read + other.packets_read <= u64::MAX
        &&& self.packets_copied + other.packets_copied <= u64::MAX
        &&& self.packets_encoded + other.packets_encoded <= u64::MAX
        &&& self.frames_decoded + other.frames_decoded <= u64::MAX
        &&& self.frames_written + other.frames_written <= u64::MAX
        &&& self.packets_skipped + other.packets_skipped <= u64::MAX
    }

    /// Both together, counter by counter.
    pub open spec fn merged(self, other: ExecutorStats) -> ExecutorStats {
        ExecutorStats {
            packets_read: (self.packets_read + other.packets_read) as u64,
            packets_copied: (self.packets_copied + other.packets_copied) as u64,
            packets_encoded: (self.packets_encoded + other.packets_encoded) as u64,
            frames_decoded: (self.frames_decoded + other.frames_decoded) as u64,
            frames_written: (self.frames_written + other.frames_written) as u64,
            packets_skipped: (self.packets_skipped + other.packets_skipped) as u64,
        }
    }

    /// No counter of `self` exceeds the same counter of `later`.
    pub open spec fn at_most(self, later: ExecutorStats) -> bool {
        &&& self.packets_read <= later.packets_read
        &&& self.packets_copied <= later.packets_copied
        &&& self.packets_encoded <= later.packets_encoded
        &&& self.frames_decoded <= later.frames_decoded
        &&& self.frames_written <= later.frames_written
        &&& self.packets_skipped <= later.packets_skipped
    }

    /// Each counter can still take `n` more events.
    pub open spec fn has_room(self, n: int) -> bool {
        &&& self.packets_read + n <= u64::MAX
        &&& self.packets_copied + n <= u64::MAX
        &&& self.packets_encoded + n <= u64::MAX
        &&& self.frames_decoded + n <= u64::MAX
        &&& self.frames_written + n <= u64::MAX
        &&& self.packets_skipped + n <= u64::MAX
    }

    /// Adds the counters of another output.
    pub fn merge(&mut self, other: &Self)
        requires
            old(self).can_merge(*other),
        ensures
            *final(self) == old(self).merged(*other),
    {
        self.packets_read = self.packets_read + other.packets_read;
        self.packets_copied = self.packets_copied + other.packets_copied;
        self.packets_encoded = self.packets_encoded + other.packets_encoded;
        self.frames_decoded = self.frames_decoded + other.frames_decoded;
        self.frames_written = self.frames_written + other.frames_written;
        self.packets_skipped = self.packets_skipped + other.packets_skipped;
    }
}

/// Merging is independent of the order and of the grouping of the outputs, and
/// an output that did nothing adds nothing.
pub proof fn merge_is_a_sum(a: ExecutorStats, b: ExecutorStats, c: ExecutorStats)
    requires
        a.can_merge(b),
        a.merged(b).can_merge(c),
    ensures
        a.merged(b) == b.merged(a),
        b.can_merge(c),
        a.can_merge(b.merged(c)),
        a.merged(b).merged(c) == a.merged(b.merged(c)),
        a.merged(ExecutorStats::zero()) == a,
        a.at_most(a.merged(b)),
{
}

} // verus!
