//! The completed-payload counter shared by all workers.

use vstd::prelude::*;

verus! {

/// The count after `steps` more payloads: the sum, as far as the counter
/// reaches.
pub open spec fn counted(completed: u64, steps: u64) -> u64 {
    if completed + steps <= u64::MAX {
        (completed + steps) as u64
    } else {
        u64::MAX
    }
}

/// Counts the payloads that have been processed so far, out of a known total.
///
/// The count only ever grows: no operation lowers or resets it.
#[derive(Clone, Copy, Debug)]
pub struct ProgressCounter {
    completed: u64,
    total: u64,
}

impl ProgressCounter {
    /// Number of payloads processed so far.
    pub closed spec fn completed_spec(&self) -> u64 {
        self.completed
    }

    /// Number of payloads the run is expected to process.
    pub closed spec fn total_spec(&self) -> u64 {
        self.total
    }

    /// A counter at zero for a run of `total` payloads.
    pub fn new(total: u64) -> (counter: ProgressCounter)
        ensures
            counter.completed_spec() == 0,
            counter.total_spec() == total,
    {
        ProgressCounter { completed: 0, total }
    }

    /// Records one more processed payload. The count stops at `u64::MAX`.
    pub fn increment(&mut self)
        ensures
            final(self).total_spec() == old(self).total_spec(),
            final(self).completed_spec() == counted(old(self).completed_spec(), 1),
    {
        self.advance(1);
    }

    /// Records `steps` more processed payloads. The count stops at
    /// `u64::MAX`.
    pub fn advance(&mut self, steps: u64)
        ensures
            final(self).total_spec() == old(self).total_spec(),
            final(self).completed_spec() == counted(old(self).completed_spec(), steps),
    {
        self.completed = self.completed.saturating_add(steps);
    }

    #[verifier::when_used_as_spec(completed_spec)]
    pub fn completed(&self) -> (n: u64)
        ensures
            n == self.completed_spec(),
    {
        self.completed
    }

    #[verifier::when_used_as_spec(total_spec)]
    pub fn total(&self) -> (n: u64)
        ensures
            n == self.total_spec(),
    {
        self.total
    }
}

} // verus!
