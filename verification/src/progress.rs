//! The progress counter shared by the bulk operations.

use vstd::prelude::*;

verus! {

/// A progress sink: the declared total of a batch and the units done so far.
#[derive(Clone, Copy, Debug, PartialEq, Eq, Structural)]
pub struct Progress {
    pub length: u64,
    pub position: u64,
}

impl Progress {
    /// A sink with nothing declared and nothing done.
    pub fn new() -> (p: Progress)
        ensures
            p.length == 0,
            p.position == 0,
    {
        Progress { length: 0, position: 0 }
    }

    /// The declared total.
    pub fn length(&self) -> (n: u64)
        ensures
            n == self.length,
    {
        self.length
    }

    /// The units done so far.
    pub fn position(&self) -> (n: u64)
        ensures
            n == self.position,
    {
        self.position
    }

    /// Advances the counter by `delta` units. The counter never goes back.
    pub fn inc(&mut self, delta: u64)
        requires
            old(self).position + delta <= u64::MAX,
        ensures
            final(self).position == old(self).position + delta,
            final(self).length == old(self).length,
    {
        self.position = self.position + delta;
    }

    /// Whether the counter has reached the declared total.
    pub fn is_finished(&self) -> (done: bool)
        ensures
            done == (self.position >= self.length),
    {
        self.position >= self.length
    }
}

/// Declares the total of the next batch and puts the counter back to zero.
pub fn progress_init(progress: &mut Progress, length: u64)
    ensures
        final(progress).length == length,
        final(progress).position == 0,
{
    progress.length = length;
    progress.position = 0;
}

/// The total to declare for a synchronisation: one unit for each entry that is
/// copied or deleted, two for each entry that is compared. `None` where the
/// total does not fit the counter.
pub fn progress_total(copies: u64, deletions: u64, comparisons: u64) -> (total: Option<u64>)
    ensures
        total.is_some() <==> copies + deletions + 2 * comparisons <= u64::MAX,
        total.is_some() ==> total.unwrap() == copies + deletions + 2 * comparisons,
{
    let doubled: u64 = match comparisons.checked_mul(2) {
        Some(d) => d,
        None => { return None; },
    };
    let moved: u64 = match copies.checked_add(deletions) {
        Some(m) => m,
        None => { return None; },
    };
    moved.checked_add(doubled)
}

} // verus!
