//! Simulation configuration, consumed at construction and immutable
//! afterwards. All rates and thresholds are fixed-point micro-units
//! (`SCALE` is 1.0). Validation happens here, at the boundary: the engine
//! requires a well-formed configuration and never re-checks it.

use crate::fixed::COUNT_LIMIT;
use crate::fixed::SCALE;
use vstd::prelude::*;

verus! {

pub struct TierConfig {
    pub name: String,
    pub max_capacity: u64,
    pub congestion_threshold: u64,
    pub failure_base_rate: u64,
}

impl TierConfig {
    pub open spec fn wf(self) -> bool {
        &&& self.max_capacity >= 1
    &&& self.congestion_threshold <= SCALE
    &&& self.failure_base_rate <= SCALE
    }
}

#[derive(Clone, Copy)]
pub struct PolicyConfig {
    pub launch_rate: u64,
    pub mitigation_strength: u64,
    pub compliance_rate: u64,
    pub deorbit_threshold: u64,
}

impl PolicyConfig {
    pub open spec fn wf(self) -> bool {
        &&& self.launch_rate <= SCALE
    &&& self.compliance_rate <= SCALE
    &&& self.deorbit_threshold <= SCALE
    }
}

#[derive(Clone, Copy)]
pub struct ReportingConfig {
    pub report_interval: u64,
    pub hedging_enabled: bool,
    pub confidence_modulation: bool,
    /// Accepted but reserved: the narration logic does not consume it.
    pub ambiguity_level: u64,
}

impl ReportingConfig {
    pub open spec fn wf(self) -> bool {
        self.report_interval >= 1
    }
}

pub struct SimulationConfig {
    pub time_steps: u64,
    pub initial_agents: u64,
    pub capacity_tiers: Vec<TierConfig>,
    pub policy: PolicyConfig,
    pub reporting: ReportingConfig,
    pub random_seed: Option<u64>,
}

impl SimulationConfig {
    pub open spec fn wf(self) -> bool {
        &&& self.time_steps >= 1
    &&& self.capacity_tiers@.len() >= 1
    &&& forall|i: int|
        0 <= i < self.capacity_tiers@.len() ==> (#[trigger] self.capacity_tiers@[i]).wf()
    &&& self.policy.wf()
    &&& self.reporting.wf()
    &&& self.initial_agents + self.time_steps <= COUNT_LIMIT
    }

    pub fn with_policy(self, policy: PolicyConfig) -> (c: SimulationConfig)
        ensures
            c == (SimulationConfig { policy, ..self }),
    {
        SimulationConfig { policy, ..self }
    }

    pub fn with_time_steps(self, steps: u64) -> (c: SimulationConfig)
        ensures
            c == (SimulationConfig { time_steps: steps, ..self }),
    {
        SimulationConfig { time_steps: steps, ..self }
    }
}

impl Default for SimulationConfig {
    /// The stock three-tier configuration.
    fn default() -> (c: SimulationConfig)
        ensures
            c.wf(),
            c.time_steps == 1000,
            c.initial_agents == 500,
            c.capacity_tiers@.len() == 3,
            c.capacity_tiers@[0].name@ == "LEO-Low"@,
            c.capacity_tiers@[0].max_capacity == 200,
            c.capacity_tiers@[0].congestion_threshold == 700_000,
            c.capacity_tiers@[0].failure_base_rate == 1_000,
            c.capacity_tiers@[1].name@ == "LEO-Mid"@,
            c.capacity_tiers@[1].max_capacity == 300,
            c.capacity_tiers@[1].congestion_threshold == 750_000,
            c.capacity_tiers@[1].failure_base_rate == 800,
            c.capacity_tiers@[2].name@ == "LEO-High"@,
            c.capacity_tiers@[2].max_capacity == 250,
            c.capacity_tiers@[2].congestion_threshold == 800_000,
            c.capacity_tiers@[2].failure_base_rate == 600,
            c.policy.launch_rate == 20_000,
            c.policy.mitigation_strength == 300_000,
            c.policy.compliance_rate == 850_000,
            c.policy.deorbit_threshold == 900_000,
            c.reporting.report_interval == 10,
            c.reporting.hedging_enabled == true,
            c.reporting.confidence_modulation == true,
            c.reporting.ambiguity_level == 500_000,
            c.random_seed == Some(42u64),
    {
        let mut tiers: Vec<TierConfig> = Vec::new();
        tiers.push(
            TierConfig {
                name: "LEO-Low".to_owned(),
                max_capacity: 200,
                congestion_threshold: 700_000,
                failure_base_rate: 1_000,
            },
        );
        tiers.push(
            TierConfig {
                name: "LEO-Mid".to_owned(),
                max_capacity: 300,
                congestion_threshold: 750_000,
                failure_base_rate: 800,
            },
        );
        tiers.push(
            TierConfig {
                name: "LEO-High".to_owned(),
                max_capacity: 250,
                congestion_threshold: 800_000,
                failure_base_rate: 600,
            },
        );
        SimulationConfig {
            time_steps: 1000,
            initial_agents: 500,
            capacity_tiers: tiers,
            policy: PolicyConfig {
                launch_rate: 20_000,
                mitigation_strength: 300_000,
                compliance_rate: 850_000,
                deorbit_threshold: 900_000,
            },
            reporting: ReportingConfig {
                report_interval: 10,
                hedging_enabled: true,
                confidence_modulation: true,
                ambiguity_level: 500_000,
            },
            random_seed: Some(42),
        }
    }
}

} // verus!
