//! A capacity-bounded pool of agents with congestion and hazard metrics.

use crate::fixed::COUNT_LIMIT;
use crate::fixed::SCALE;
use crate::fixed::effective_rate_micro;
use crate::fixed::severity_micro;
use crate::fixed::spec_effective_rate;
use crate::fixed::spec_severity;
use crate::fixed::spec_utilization;
use crate::fixed::utilization_micro;
use vstd::prelude::*;

verus! {

pub struct CapacityTier {
    pub id: usize,
    pub name: String,
    pub max_capacity: u64,
    pub current_count: u64,
    /// Congestion threshold in micro-units, at most `SCALE`.
    pub congestion_threshold: u64,
    /// Base failure probability in micro-units, at most `SCALE`.
    pub failure_base_rate: u64,
}

impl CapacityTier {
    pub open spec fn wf(self) -> bool {
        &&& self.max_capacity >= 1
    &&& self.congestion_threshold <= SCALE
    &&& self.failure_base_rate <= SCALE
    &&& self.current_count <= COUNT_LIMIT
    }

    pub open spec fn spec_utilization(self) -> int {
        spec_utilization(self.current_count as int, self.max_capacity as int)
    }

    pub open spec fn spec_is_congested(self) -> bool {
        self.spec_utilization() > self.congestion_threshold
    }

    pub open spec fn spec_severity(self) -> int {
        spec_severity(self.spec_utilization(), self.congestion_threshold as int)
    }

    pub open spec fn spec_effective_rate(self) -> int {
        spec_effective_rate(
            self.spec_utilization(),
            self.congestion_threshold as int,
            self.failure_base_rate as int,
        )
    }

    /// A fresh, empty tier. Configuration is validated before construction:
    /// a zero capacity or an out-of-range rate is a caller error.
    pub fn new(
        id: usize,
        name: String,
        max_capacity: u64,
        congestion_threshold: u64,
        failure_base_rate: u64,
    ) -> (t: CapacityTier)
        requires
            max_capacity >= 1,
            congestion_threshold <= SCALE,
            failure_base_rate <= SCALE,
        ensures
            t.id == id,
            t.name == name,
            t.max_capacity == max_capacity,
            t.current_count == 0,
            t.congestion_threshold == congestion_threshold,
            t.failure_base_rate == failure_base_rate,
            t.wf(),
    {
        CapacityTier {
            id,
            name,
            max_capacity,
            current_count: 0,
            congestion_threshold,
            failure_base_rate,
        }
    }

    /// `current_count / max_capacity` in micro-units.
    pub fn utilization(&self) -> (r: u64)
        requires
            self.wf(),
        ensures
            r == self.spec_utilization(),
            r <= COUNT_LIMIT * SCALE,
    {
        utilization_micro(self.current_count, self.max_capacity)
    }

    pub fn is_congested(&self) -> (r: bool)
        requires
            self.wf(),
        ensures
            r == self.spec_is_congested(),
    {
        self.utilization() > self.congestion_threshold
    }

    /// Zero at or below the threshold, then a linear ramp that reaches one
    /// whole unit at full utilization.
    pub fn congestion_severity(&self) -> (r: u64)
        requires
            self.wf(),
        ensures
            r == self.spec_severity(),
    {
        let util = self.utilization();
        severity_micro(util, self.congestion_threshold)
    }

    /// The base rate below the threshold; above it the hazard escalates
    /// quadratically with the overshoot.
    pub fn effective_failure_rate(&self) -> (r: u64)
        requires
            self.wf(),
        ensures
            r == self.spec_effective_rate(),
    {
        let util = self.utilization();
        effective_rate_micro(util, self.congestion_threshold, self.failure_base_rate)
    }

    /// The only way the count grows.
    pub fn add_agent(&mut self)
        requires
            old(self).wf(),
            old(self).current_count < COUNT_LIMIT,
        ensures
            final(self).current_count == old(self).current_count + 1,
            final(self).id == old(self).id,
            final(self).name == old(self).name,
            final(self).max_capacity == old(self).max_capacity,
            final(self).congestion_threshold == old(self).congestion_threshold,
            final(self).failure_base_rate == old(self).failure_base_rate,
            final(self).wf(),
    {
        self.current_count = self.current_count + 1;
    }

    /// The only way the count shrinks; a no-op at zero, so the count can
    /// tolerate drift but never goes negative.
    pub fn remove_agent(&mut self)
        requires
            old(self).wf(),
        ensures
            final(self).current_count == if old(self).current_count > 0 {
                old(self).current_count - 1
            } else {
                0
            },
            final(self).id == old(self).id,
            final(self).name == old(self).name,
            final(self).max_capacity == old(self).max_capacity,
            final(self).congestion_threshold == old(self).congestion_threshold,
            final(self).failure_base_rate == old(self).failure_base_rate,
            final(self).wf(),
    {
        if self.current_count > 0 {
            self.current_count = self.current_count - 1;
        }
    }
}

} // verus!
