//! Counting records as they are loaded: a transaction is committed, or
//! progress is reported, each time the count reaches a multiple of a period.
use vstd::prelude::*;

verus! {

pub struct BatchCounter {
    count: u64,
    period: u64,
}

impl BatchCounter {
    pub closed spec fn spec_count(self) -> nat {
        self.count as nat
    }

    pub closed spec fn spec_period(self) -> nat {
        self.period as nat
    }

    /// No record seen yet; batches of `period` records.
    pub fn new(period: u64) -> (r: BatchCounter)
        requires
            period > 0,
        ensures
            r.spec_count() == 0,
            r.spec_period() == period,
    {
        BatchCounter { count: 0, period }
    }

    /// Counts one more record, and says whether the count is now a
    /// multiple of the period.
    pub fn record(&mut self) -> (boundary: bool)
        requires
            old(self).spec_count() < u64::MAX,
            old(self).spec_period() > 0,
        ensures
            final(self).spec_count() == old(self).spec_count() + 1,
            final(self).spec_period() == old(self).spec_period(),
            boundary == (final(self).spec_count() % final(self).spec_period() == 0),
    {
        self.count = self.count + 1;
        self.count % self.period == 0
    }

    /// How many records have been counted.
    pub fn count(&self) -> (r: u64)
        ensures
            r == self.spec_count(),
    {
        self.count
    }
}

/// Law: within any `period` consecutive records exactly one reaches a
/// multiple of the period, so a batch never holds more than `period` records.
pub proof fn lemma_one_boundary_per_period(start: nat, period: nat)
    requires
        period > 0,
    ensures
        exists|k: nat| start < k <= start + period && #[trigger] (k % period) == 0,
        forall|k1: nat, k2: nat|
            start < k1 <= start + period && start < k2 <= start + period && #[trigger] (k1 % period) == 0
                && #[trigger] (k2 % period) == 0 ==> k1 == k2,
{
    let k = (start / period + 1) * period;
    assert(k % period == 0) by (nonlinear_arith)
        requires
            k == (start / period + 1) * period,
            period > 0,
    ;
    assert(start < k <= start + period) by (nonlinear_arith)
        requires
            k == (start / period + 1) * period,
            period > 0,
    ;
    assert forall|k1: nat, k2: nat|
        start < k1 <= start + period && start < k2 <= start + period && #[trigger] (k1 % period) == 0
            && #[trigger] (k2 % period) == 0 implies k1 == k2 by {
        if k1 != k2 {
            assert(false) by (nonlinear_arith)
                requires
                    start < k1 <= start + period,
                    start < k2 <= start + period,
                    k1 % period == 0,
                    k2 % period == 0,
                    k1 != k2,
                    period > 0,
            {
                assert(k1 == (k1 / period) * period);
                assert(k2 == (k2 / period) * period);
            }
        }
    }
}

} // verus!
