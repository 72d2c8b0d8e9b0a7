//! The totals of a run over several roots.
use vstd::prelude::*;
use crate::walker::sat_add;

verus! {

/// What has been counted so far over the roots of one run.
pub struct RunTotals {
    pub roots: usize,
    pub total: usize,
}

impl RunTotals {
    /// No root seen yet.
    pub fn new() -> (r: RunTotals)
        ensures
            r.roots == 0,
            r.total == 0,
    {
        RunTotals { roots: 0, total: 0 }
    }

    /// Records one root: its count, or `None` where it failed and adds nothing.
    pub fn record(&mut self, count: Option<usize>)
        requires
            old(self).roots < usize::MAX,
        ensures
            final(self).roots == old(self).roots + 1,
            final(self).total == match count {
                Some(k) => sat_add(old(self).total as nat, k as nat),
                None => old(self).total as nat,
            },
    {
        self.roots = self.roots + 1;
        if let Some(k) = count {
            self.total = self.total.saturating_add(k);
        }
    }

    /// The grand total, reported only where more than one root was given.
    pub fn grand_total(&self) -> (r: Option<usize>)
        ensures
            r == (if self.roots > 1 {
                Some(self.total)
            } else {
                None::<usize>
            }),
    {
        if self.roots > 1 {
            Some(self.total)
        } else {
            None
        }
    }
}

} // verus!
