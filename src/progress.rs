//! Progress of a worker through the bytes of a run, in steps of 1%.
use vstd::prelude::*;

verus! {

/// Bytes counted since the last step, against a threshold of 1% of the
/// run's total; `steps` is the number of 1% steps reported so far.
#[derive(Debug, Clone, Copy, PartialEq, Eq)]
pub struct ProgressTracker {
    pub flush_val: u64,
    pub count: u64,
    pub steps: u64,
}

impl ProgressTracker {
    pub closed spec fn wf(&self) -> bool {
        self.count <= self.flush_val
    }

    /// A tracker for a run of `total` bytes: the threshold is `total / 100`.
    pub fn new(total: u64) -> (r: ProgressTracker)
        ensures
            r.wf(),
            r.flush_val == total / 100,
            r.count == 0,
            r.steps == 0,
    {
        ProgressTracker { flush_val: total / 100, count: 0, steps: 0 }
    }

    /// Counts `bytes` more. When the bytes counted since the last step pass
    /// the threshold, a step is taken: the count starts again from 0 and
    /// `true` is returned (the caller reports `steps` percent).
    pub fn add(&mut self, bytes: u64) -> (r: bool)
        requires
            old(self).wf(),
        ensures
            final(self).wf(),
            final(self).flush_val == old(self).flush_val,
            r == (old(self).count + bytes > old(self).flush_val),
            r ==> final(self).count == 0 && final(self).steps == (if old(self).steps < u64::MAX {
                old(self).steps + 1
            } else {
                old(self).steps as int
            }),
            !r ==> final(self).count == old(self).count + bytes && final(self).steps == old(self).steps,
    {
        if bytes > self.flush_val - self.count {
            self.count = 0;
            if self.steps < u64::MAX {
                self.steps = self.steps + 1;
            }
            true
        } else {
            self.count = self.count + bytes;
            false
        }
    }
}

} // verus!
