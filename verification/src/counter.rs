//! CPU-cost accounting for scoring: a counter that accumulates proxy
//! compute units and is read with take-semantics.

use vstd::prelude::*;

verus! {

/// Saturating addition within the counter's range.
pub open spec fn sat_add(a: int, b: int) -> int {
    if a + b > u64::MAX {
        u64::MAX as int
    } else {
        a + b
    }
}

/// Saturating one delta at a time is the same as saturating their sum.
pub proof fn lemma_sat_add_chain(c: int, d1: int, d2: int)
    requires
        0 <= c,
        0 <= d1,
        0 <= d2,
    ensures
        sat_add(sat_add(c, d1), d2) == sat_add(c, d1 + d2),
{
}

/// A per-operation cost counter. The `checked` flag records whether a
/// budget should be enforced; enforcement policy belongs to whoever
/// reads the counter, and accumulation is unconditional.
pub struct HardwareCounterCell {
    pub cpu: u64,
    pub checked: bool,
}

impl HardwareCounterCell {
    /// A fresh counter: zero cost, unchecked.
    pub fn new() -> (r: Self)
        ensures
            r.cpu == 0,
            r.checked == false,
    {
        HardwareCounterCell { cpu: 0, checked: false }
    }

    /// Add `delta` CPU units, saturating at the counter's range.
    pub fn incr_cpu(&mut self, delta: u64)
        ensures
            final(self).cpu == sat_add(old(self).cpu as int, delta as int),
            final(self).checked == old(self).checked,
    {
        if delta > u64::MAX - self.cpu {
            self.cpu = u64::MAX;
        } else {
            self.cpu = self.cpu + delta;
        }
    }

    /// Read the accumulated cost and reset it: one read consumes the
    /// measurement window.
    pub fn take(&mut self) -> (r: HardwareCounterCell)
        ensures
            r.cpu == old(self).cpu,
            r.checked == old(self).checked,
            final(self).cpu == 0,
            final(self).checked == old(self).checked,
    {
        let r = HardwareCounterCell { cpu: self.cpu, checked: self.checked };
        self.cpu = 0;
        r
    }

    /// Toggle whether a budget is meant to be enforced on this counter.
    pub fn set_checked(&mut self, checked: bool)
        ensures
            final(self).cpu == old(self).cpu,
            final(self).checked == checked,
    {
        self.checked = checked;
    }
}

} // verus!
