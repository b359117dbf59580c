use vstd::prelude::*;

verus! {

/// How a latency value should be presented: below 30 ms, below 100 ms,
/// or at/above 100 ms. The host's colour scheme maps each band to a colour.
#[derive(Clone, Copy, Debug, PartialEq, Eq, Structural)]
pub enum LatencyBand {
    Low,
    Medium,
    High,
}

/// Display state shared by all drawing code: a single monochrome toggle.
/// It is an explicit value handed to the renderer, not process-wide state.
#[derive(Clone, Copy, Debug, PartialEq, Eq, Structural)]
pub struct Theme {
    pub monotone: bool,
}

impl Theme {
    pub fn new(monotone: bool) -> (t: Theme)
        ensures
            t.monotone == monotone,
    {
        Theme { monotone }
    }

    pub fn set_monotone(&mut self, enabled: bool)
        ensures
            final(self).monotone == enabled,
    {
        self.monotone = enabled;
    }

    pub fn is_monotone(&self) -> (r: bool)
        ensures
            r == self.monotone,
    {
        self.monotone
    }

    /// Band for a latency given in microseconds: the thresholds are
    /// 30 ms and 100 ms.
    pub fn latency_band(latency_us: u64) -> (r: LatencyBand)
        ensures
            r == spec_latency_band(latency_us),
    {
        if latency_us < 30000 {
            LatencyBand::Low
        } else if latency_us < 100000 {
            LatencyBand::Medium
        } else {
            LatencyBand::High
        }
    }
}

pub open spec fn spec_latency_band(latency_us: u64) -> LatencyBand {
    if latency_us < 30000 {
        LatencyBand::Low
    } else if latency_us < 100000 {
        LatencyBand::Medium
    } else {
        LatencyBand::High
    }
}

} // verus!
