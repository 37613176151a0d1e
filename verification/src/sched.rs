//! The conversion scheduler: bookkeeping for the one-time freeze of each
//! data table at the startup boundary.
//!
//! Each table combination is identified by a step key. Scheduling is
//! idempotent — many independent call sites may register data into the same
//! table, and the freeze step must still run exactly once. A step can also
//! be cancelled: its table then stays mutable ("changable") for the whole
//! run, and its freeze step becomes a no-op. Once every scheduled,
//! non-cancelled step has run, this bookkeeping has no further use and can
//! be dropped.

use vstd::prelude::*;

verus! {

/// Bookkeeping of the conversion steps scheduled so far and of those
/// cancelled from automatic freezing.
pub struct ConvertSystemsData {
    pub(crate) added_steps: Vec<u64>,
    pub(crate) cancelled_steps: Vec<u64>,
}

impl ConvertSystemsData {
    /// The set of step keys scheduled so far.
    pub open(crate) spec fn added(&self) -> Set<u64> {
        self.added_steps@.to_set()
    }

    /// The set of step keys cancelled from automatic freezing.
    pub open(crate) spec fn cancelled(&self) -> Set<u64> {
        self.cancelled_steps@.to_set()
    }

    /// Fresh bookkeeping: nothing scheduled, nothing cancelled.
    pub fn new() -> (r: Self)
        ensures
            r.added() == Set::<u64>::empty(),
            r.cancelled() == Set::<u64>::empty(),
    {
        let r = ConvertSystemsData { added_steps: Vec::new(), cancelled_steps: Vec::new() };
        proof {
            assert(r.added() =~= Set::<u64>::empty());
            assert(r.cancelled() =~= Set::<u64>::empty());
        }
        r
    }

    /// Whether the step has already been scheduled.
    pub fn is_added(&self, step: u64) -> (r: bool)
        ensures
            r == self.added().contains(step),
    {
        contains_step(&self.added_steps, step)
    }

    /// Schedule the step to run once at the startup boundary, unless it
    /// has been scheduled before. Returns whether it was newly scheduled.
    pub fn add_if_not_added(&mut self, step: u64) -> (newly: bool)
        ensures
            newly == !old(self).added().contains(step),
            final (self).added() == old(self).added().insert(step),
            final (self).cancelled() == old(self).cancelled(),
    {
        if self.is_added(step) {
            false
        } else {
            self.added_steps.push(step);
            proof {
                broadcast use vstd::seq_lib::lemma_seq_contains_after_push;

                assert(self.added() =~= old(self).added().insert(step));
            }
            true
        }
    }

    /// Mark the step exempt from automatic freezing: its table stays
    /// mutable for the rest of the run and its freeze step is skipped.
    pub fn cancel(&mut self, step: u64)
        ensures
            final (self).cancelled() == old(self).cancelled().insert(step),
            final (self).added() == old(self).added(),
    {
        if !self.is_cancelled(step) {
            self.cancelled_steps.push(step);
        }
        proof {
            broadcast use vstd::seq_lib::lemma_seq_contains_after_push;

            assert(self.cancelled() =~= old(self).cancelled().insert(step));
        }
    }

    /// Whether the step has been cancelled.
    pub fn is_cancelled(&self, step: u64) -> (r: bool)
        ensures
            r == self.cancelled().contains(step),
    {
        contains_step(&self.cancelled_steps, step)
    }

    /// The decision taken at the startup boundary: a step's freeze runs
    /// exactly when it was scheduled and not cancelled.
    pub fn should_convert(&self, step: u64) -> (r: bool)
        ensures
            r == (self.added().contains(step) && !self.cancelled().contains(step)),
    {
        self.is_added(step) && !self.is_cancelled(step)
    }
}

/// Whether `steps` holds `step`.
fn contains_step(steps: &Vec<u64>, step: u64) -> (r: bool)
    ensures
        r == steps@.to_set().contains(step),
{
    let mut i: usize = 0;
    while i < steps.len()
        invariant
            i <= steps@.len(),
            forall|j: int| 0 <= j < i ==> steps@[j] != step,
        decreases steps@.len() - i,
    {
        if steps[i] == step {
            proof {
                assert(steps@.to_set().contains(step));
            }
            return true;
        }
        i = i + 1;
    }
    proof {
        assert(!steps@.to_set().contains(step)) by {
            if steps@.to_set().contains(step) {
                let j = choose|j: int| 0 <= j < steps@.len() && steps@[j] == step;
            }
        }
    }
    false
}

impl Default for ConvertSystemsData {
    /// Fresh bookkeeping: nothing scheduled, nothing cancelled.
    fn default() -> (r: Self)
        ensures
            r.added() == Set::<u64>::empty(),
            r.cancelled() == Set::<u64>::empty(),
    {
        Self::new()
    }
}

} // verus!
