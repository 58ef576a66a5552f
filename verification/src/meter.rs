//! Counting control-loop iterations for the periodic rate report.

use vstd::prelude::*;

verus! {

/// Iterations between two reports of the loop rate.
pub const REPORT_EVERY: u32 = 100;

/// Counts loop iterations and says when a rate report is due.
pub struct LoopMeter {
    count: u32,
}

/// The count after `ticks` iterations from a fresh meter.
pub open spec fn count_after(ticks: nat) -> nat {
    ticks % (REPORT_EVERY as nat)
}

impl LoopMeter {
    /// Iterations since the last report.
    pub closed spec fn count(&self) -> nat {
        self.count as nat
    }

    /// The count stays below the report interval.
    pub open spec fn wf(&self) -> bool {
        self.count() < REPORT_EVERY
    }

    /// A meter with no iteration counted.
    pub fn new() -> (m: LoopMeter)
        ensures
            m.wf(),
            m.count() == 0,
    {
        LoopMeter { count: 0 }
    }

    /// Iterations since the last report.
    pub fn iterations(&self) -> (n: u32)
        ensures
            n == self.count(),
    {
        self.count
    }

    /// Counts one iteration. Returns whether a report is due, which is the
    /// case on every hundredth iteration; the count then starts again.
    pub fn tick(&mut self) -> (report: bool)
        requires
            old(self).wf(),
        ensures
            final(self).wf(),
            report == (old(self).count() + 1 == REPORT_EVERY),
            final(self).count() == if report { 0 } else { old(self).count() + 1 },
    {
        self.count = self.count + 1;
        if self.count >= REPORT_EVERY {
            self.count = 0;
            true
        } else {
            false
        }
    }
}

/// The meter reports exactly on every hundredth iteration: after `ticks`
/// iterations its count is `ticks % 100`, and the next iteration reports
/// exactly when `ticks + 1` is a multiple of 100.
pub proof fn law_meter_reports_every_hundredth(m: LoopMeter, ticks: nat)
    requires
        m.wf(),
        m.count() == count_after(ticks),
    ensures
        (m.count() + 1 == REPORT_EVERY) == ((ticks + 1) % (REPORT_EVERY as nat) == 0),
        (if m.count() + 1 == REPORT_EVERY { 0 } else { m.count() + 1 }) == count_after(ticks + 1),
{
}

} // verus!
