//! The simulation engine: owns all state and drives the per-tick pipeline
//! (dynamics, policy, conditional report, cleanup), then assembles the
//! final results.

use crate::agent::Agent;
use crate::agent::count_members;
use crate::agent::lemma_count_members_bounds;
use crate::agent::lemma_count_members_pointwise;
use crate::agent::lemma_count_members_push;
use crate::config::SimulationConfig;
use crate::dynamics::SystemDynamics;
use crate::event::Event;
use crate::event::EventType;
use crate::event::count_events_in_window;
use crate::event::count_events_of_kind;
use crate::event::count_in_window;
use crate::event::count_kind;
use crate::event::lemma_count_kind_extend;
use crate::event::lemma_count_window_extend;
use crate::fixed::COUNT_LIMIT;
use crate::fixed::SCALE;
use crate::language::LanguageGenerator;
use crate::language::spec_narrative;
use crate::policy::LAUNCH_ID_START;
use crate::policy::PolicyEngine;
use crate::policy::counts_match;
use crate::policy::tier_same_config;
use crate::rng::SimulationRng;
use crate::stability::class_label;
use crate::stability::classify_stability;
use crate::stability::spec_class_label;
use crate::stability::spec_classify;
use crate::tier::CapacityTier;
use vstd::arithmetic::div_mod::lemma_div_by_multiple;
use vstd::arithmetic::div_mod::lemma_div_is_ordered;
use vstd::arithmetic::div_mod::lemma_fundamental_div_mod;
use vstd::arithmetic::div_mod::lemma_fundamental_div_mod_converse;
use vstd::prelude::*;

verus! {

/// Sum of tier utilizations, in micro-units.
pub open spec fn spec_sum_util(tiers: Seq<CapacityTier>) -> int
    decreases tiers.len(),
{
    if tiers.len() == 0 {
        0
    } else {
        spec_sum_util(tiers.drop_last()) + tiers.last().spec_utilization()
    }
}

/// Unweighted mean of tier utilizations, in micro-units.
pub open spec fn spec_avg_util(tiers: Seq<CapacityTier>) -> int
    recommends
        tiers.len() >= 1,
{
    spec_sum_util(tiers) / (tiers.len() as int)
}

/// Sum of tier effective failure rates, in micro-units.
pub open spec fn spec_sum_rate(tiers: Seq<CapacityTier>) -> int
    decreases tiers.len(),
{
    if tiers.len() == 0 {
        0
    } else {
        spec_sum_rate(tiers.drop_last()) + tiers.last().spec_effective_rate()
    }
}

/// Unweighted mean of tier effective failure rates, in micro-units.
pub open spec fn spec_avg_rate(tiers: Seq<CapacityTier>) -> int
    recommends
        tiers.len() >= 1,
{
    spec_sum_rate(tiers) / (tiers.len() as int)
}

/// How many reports a run of `t` ticks emits at interval `interval`:
/// one at tick zero and one at every further multiple of the interval.
pub open spec fn spec_num_reports(t: int, interval: int) -> int
    recommends
        interval >= 1,
{
    (t + interval - 1) / interval
}

/// The report schedule is exactly the multiples of the interval within the
/// run: a tick `t` in `[0, steps)` with `t % interval == 0` corresponds to
/// one report index below `spec_num_reports(steps, interval)`, and every
/// report index stands for such a tick.
pub proof fn lemma_report_schedule(steps: int, interval: int, t: int)
    requires
        interval >= 1,
        steps >= 1,
        t >= 0,
    ensures
        (t < steps && t % interval == 0) <==> (exists|i: int|
            0 <= i < spec_num_reports(steps, interval) && t == #[trigger] (i * interval)),
{
    let q = (steps - 1) / interval;
    let r = (steps - 1) % interval;
    lemma_fundamental_div_mod(steps - 1, interval);
    assert(steps - 1 == interval * q + r);
    assert((q + 1) * interval == interval * q + interval) by (nonlinear_arith);
    lemma_fundamental_div_mod_converse(steps - 1 + interval, interval, q + 1, r);
    assert(spec_num_reports(steps, interval) == q + 1);
    if t < steps && t % interval == 0 {
        let i = t / interval;
        lemma_fundamental_div_mod(t, interval);
        assert(interval * i == i * interval) by (nonlinear_arith);
        assert(t == i * interval);
        lemma_div_is_ordered(t, steps - 1, interval);
        assert(0 <= i < spec_num_reports(steps, interval) && t == i * interval);
    }
    if exists|i: int| 0 <= i < spec_num_reports(steps, interval) && t == #[trigger] (i
        * interval) {
        let i = choose|i: int|
            0 <= i < spec_num_reports(steps, interval) && t == #[trigger] (i * interval);
        lemma_fundamental_div_mod_converse(t, interval, i, 0);
        assert(t % interval == 0);
        assert(i <= q);
        assert(i * interval <= q * interval) by (nonlinear_arith)
            requires
                0 <= i <= q,
                interval >= 1,
        ;
        assert(interval * q == q * interval) by (nonlinear_arith);
        assert(q * interval <= steps - 1);
        assert(t < steps);
    }
}

proof fn lemma_num_reports_step(t: int, interval: int)
    requires
        interval >= 1,
        t >= 0,
    ensures
        t % interval == 0 ==> spec_num_reports(t + 1, interval) == spec_num_reports(t, interval)
            + 1 && spec_num_reports(t, interval) == t / interval,
        t % interval != 0 ==> spec_num_reports(t + 1, interval) == spec_num_reports(t, interval),
{
    let q = t / interval;
    let r = t % interval;
    lemma_fundamental_div_mod(t, interval);
    assert(t == interval * q + r);
    assert(interval * q == q * interval) by (nonlinear_arith);
    assert((q + 1) * interval == q * interval + interval) by (nonlinear_arith);
    if r == 0 {
        lemma_fundamental_div_mod_converse(t + interval - 1, interval, q, interval - 1);
        lemma_fundamental_div_mod_converse(t + interval, interval, q + 1, 0);
    } else {
        lemma_fundamental_div_mod_converse(t + interval - 1, interval, q + 1, r - 1);
        lemma_fundamental_div_mod_converse(t + interval, interval, q + 1, r);
    }
}

/// Mean utilization across the tiers.
fn average_utilization(tiers: &Vec<CapacityTier>) -> (r: u64)
    requires
        tiers@.len() >= 1,
        forall|i: int| 0 <= i < tiers@.len() ==> (#[trigger] tiers@[i]).wf(),
    ensures
        r == spec_avg_util(tiers@),
        r <= COUNT_LIMIT * SCALE,
{
    let mut sum: u128 = 0;
    let mut i: usize = 0;
    proof {
        assert(tiers@.subrange(0, 0) =~= Seq::<CapacityTier>::empty());
    }
    while i < tiers.len()
        invariant
            i <= tiers@.len(),
            forall|k: int| 0 <= k < tiers@.len() ==> (#[trigger] tiers@[k]).wf(),
            sum == spec_sum_util(tiers@.subrange(0, i as int)),
            sum <= (i as int) * ((COUNT_LIMIT * SCALE) as int),
        decreases tiers@.len() - i,
    {
        proof {
            assert(tiers@.subrange(0, i + 1).drop_last() =~= tiers@.subrange(0, i as int));
            assert(tiers@.subrange(0, i + 1).last() == tiers@[i as int]);
            assert((i as int) * ((COUNT_LIMIT * SCALE) as int) <= (u64::MAX as int) * ((
            COUNT_LIMIT * SCALE) as int)) by (nonlinear_arith)
                requires
                    0 <= i as int <= u64::MAX as int,
            ;
            assert((i as int + 1) * ((COUNT_LIMIT * SCALE) as int) == (i as int) * ((COUNT_LIMIT
                * SCALE) as int) + (COUNT_LIMIT * SCALE) as int) by (nonlinear_arith);
        }
        let u = tiers[i].utilization();
        sum = sum + (u as u128);
        i = i + 1;
    }
    proof {
        assert(tiers@.subrange(0, tiers@.len() as int) =~= tiers@);
        let n = tiers@.len() as int;
        let m = (COUNT_LIMIT * SCALE) as int;
        lemma_div_is_ordered(sum as int, n * m, n);
        lemma_div_by_multiple(m, n);
        assert(n * m == m * n) by (nonlinear_arith);
    }
    (sum / (tiers.len() as u128)) as u64
}

/// Mean effective failure rate across the tiers.
fn average_rate(tiers: &Vec<CapacityTier>) -> (r: u64)
    requires
        tiers@.len() >= 1,
        forall|i: int| 0 <= i < tiers@.len() ==> (#[trigger] tiers@[i]).wf(),
    ensures
        r == spec_avg_rate(tiers@),
{
    let mut sum: u128 = 0;
    let mut i: usize = 0;
    proof {
        assert(tiers@.subrange(0, 0) =~= Seq::<CapacityTier>::empty());
    }
    while i < tiers.len()
        invariant
            i <= tiers@.len(),
            forall|k: int| 0 <= k < tiers@.len() ==> (#[trigger] tiers@[k]).wf(),
            sum == spec_sum_rate(tiers@.subrange(0, i as int)),
            sum <= (i as int) * (u64::MAX as int),
        decreases tiers@.len() - i,
    {
        proof {
            assert(tiers@.subrange(0, i + 1).drop_last() =~= tiers@.subrange(0, i as int));
            assert(tiers@.subrange(0, i + 1).last() == tiers@[i as int]);
            assert((i as int) * (u64::MAX as int) <= (u64::MAX as int) * (u64::MAX as int)) by (
            nonlinear_arith)
                requires
                    0 <= i as int <= u64::MAX as int,
            ;
            assert((i as int + 1) * (u64::MAX as int) == (i as int) * (u64::MAX as int) + (
            u64::MAX as int)) by (nonlinear_arith);
        }
        let u = tiers[i].effective_failure_rate();
        sum = sum + (u as u128);
        i = i + 1;
    }
    proof {
        assert(tiers@.subrange(0, tiers@.len() as int) =~= tiers@);
        let n = tiers@.len() as int;
        let m = u64::MAX as int;
        lemma_div_is_ordered(sum as int, n * m, n);
        lemma_div_by_multiple(m, n);
        assert(n * m == m * n) by (nonlinear_arith);
    }
    (sum / (tiers.len() as u128)) as u64
}

/// An immutable snapshot emitted at a report boundary: the narrative next
/// to the exact numeric ground truth it may legitimately diverge from.
pub struct StatusReport {
    pub timestamp: u64,
    pub report_text: String,
    /// Mean tier utilization in micro-units.
    pub ground_truth_utilization: u64,
    /// Mean effective failure rate in micro-units.
    pub ground_truth_risk: u64,
    pub agent_count: usize,
    pub stability_class: String,
    pub recent_events: usize,
}

pub struct SimulationResults {
    pub reports: Vec<StatusReport>,
    pub events: Vec<Event>,
    pub final_agent_count: usize,
    pub cascading_failures: usize,
}

pub struct SimulationEngine {
    config: SimulationConfig,
    tiers: Vec<CapacityTier>,
    agents: Vec<Agent>,
    events: Vec<Event>,
    dynamics: SystemDynamics,
    policy: PolicyEngine,
    language: LanguageGenerator,
    rng: SimulationRng,
    current_time: u64,
}

impl SimulationEngine {
    pub closed spec fn spec_config(self) -> SimulationConfig {
        self.config
    }

    /// The tier states the engine holds.
    pub closed spec fn spec_tiers(self) -> Seq<CapacityTier> {
        self.tiers@
    }

    /// The live population the engine holds.
    pub closed spec fn spec_agents(self) -> Seq<Agent> {
        self.agents@
    }

    /// The engine invariant: a well-formed configuration, tiers that match
    /// it index for index, agents that reference live tiers, and counters
    /// bounded by how far the run has come.
    pub closed spec fn wf(self) -> bool {
        &&& self.config.wf()
    &&& self.current_time <= self.config.time_steps
    &&& self.tiers@.len() == self.config.capacity_tiers@.len()
    &&& forall|i: int|
        0 <= i < self.tiers@.len() ==> {
            let t = #[trigger] self.tiers@[i];
            t.wf() && t.id == i && t.current_count <= self.config.initial_agents
                + self.current_time
        }
    &&& forall|j: int|
        0 <= j < self.agents@.len() ==> {
            let a = #[trigger] self.agents@[j];
            a.wf() && a.tier_id < self.tiers@.len() && a.age <= self.current_time
        }
    &&& self.policy.config == self.config.policy
    &&& self.policy.next_agent_id <= LAUNCH_ID_START + self.config.initial_agents
        + self.current_time
    &&& self.language.config == self.config.reporting
    &&& counts_match(self.tiers@, self.agents@)
    &&& forall|j: int| 0 <= j < self.agents@.len() ==> !(#[trigger] self.agents@[j]).deorbited
    }

    /// A freshly built engine: no tick has run, no event is logged, and the
    /// population is exactly the initial seeding.
    pub closed spec fn fresh(self) -> bool {
        self.current_time == 0 && self.events@.len() == 0 && self.agents@.len()
            == self.config.initial_agents
    }

    /// Build the engine from a validated configuration: tier `k` mirrors
    /// the tier configuration at index `k` with a zero-based id; the
    /// initial population carries ids `0..initial_agents`, full health and
    /// round-robin tier assignment; and every tier count equals its
    /// membership.
    pub fn new(config: SimulationConfig) -> (engine: SimulationEngine)
        requires
            config.wf(),
        ensures
            engine.wf(),
            engine.fresh(),
            engine.spec_config() == config,
            engine.spec_tiers().len() == config.capacity_tiers@.len(),
            forall|k: int|
                0 <= k < config.capacity_tiers@.len() ==> {
                    let t = #[trigger] engine.spec_tiers()[k];
                    let tc = config.capacity_tiers@[k];
                    t.id == k && t.name == tc.name && t.max_capacity == tc.max_capacity
                        && t.congestion_threshold == tc.congestion_threshold
                        && t.failure_base_rate == tc.failure_base_rate && t.current_count
                        == count_members(engine.spec_agents(), k)
                },
            engine.spec_agents().len() == config.initial_agents,
            forall|n2: int|
                0 <= n2 < config.initial_agents ==> {
                    let a = #[trigger] engine.spec_agents()[n2];
                    a.id == n2 && a.tier_id == n2 % (config.capacity_tiers@.len() as int)
                        && a.age == 0 && a.health == SCALE && a.deorbited == false
                },
    {
        let mut rng = SimulationRng::new(config.random_seed);
        let mut tiers: Vec<CapacityTier> = Vec::new();
        let mut i: usize = 0;
        while i < config.capacity_tiers.len()
            invariant
                config.wf(),
                i <= config.capacity_tiers@.len(),
                tiers@.len() == i,
                forall|k: int|
                    0 <= k < i ==> {
                        let t = #[trigger] tiers@[k];
                        let tc = config.capacity_tiers@[k];
                        t.wf() && t.id == k && t.current_count == 0 && t.name == tc.name
                            && t.max_capacity == tc.max_capacity && t.congestion_threshold
                            == tc.congestion_threshold && t.failure_base_rate
                            == tc.failure_base_rate
                    },
            decreases config.capacity_tiers@.len() - i,
        {
            let name = config.capacity_tiers[i].name.clone();
            let max_capacity = config.capacity_tiers[i].max_capacity;
            let congestion_threshold = config.capacity_tiers[i].congestion_threshold;
            let failure_base_rate = config.capacity_tiers[i].failure_base_rate;
            tiers.push(
                CapacityTier::new(i, name, max_capacity, congestion_threshold, failure_base_rate),
            );
            i = i + 1;
        }
        let mut agents: Vec<Agent> = Vec::new();
        let mut n: u64 = 0;
        while n < config.initial_agents
            invariant
                config.wf(),
                tiers@.len() == config.capacity_tiers@.len(),
                n <= config.initial_agents,
                agents@.len() == n,
                forall|j: int|
                    0 <= j < agents@.len() ==> {
                        let a = #[trigger] agents@[j];
                        a.wf() && a.tier_id < tiers@.len() && a.age == 0 && a.id == j
                            && a.tier_id == j % (tiers@.len() as int) && a.health == SCALE
                            && a.deorbited == false
                    },
            decreases config.initial_agents - n,
        {
            let tier_count = tiers.len() as u64;
            let tier_id = (n % tier_count) as usize;
            let compliance = rng.gen_bool(config.policy.compliance_rate);
            agents.push(Agent::new(n, tier_id, compliance));
            n = n + 1;
        }
        let ghost tr_built = tiers@;
        let mut j: usize = 0;
        proof {
            assert(agents@.subrange(0, 0) =~= Seq::<Agent>::empty());
        }
        while j < agents.len()
            invariant
                config.wf(),
                agents@.len() <= config.initial_agents,
                j <= agents@.len(),
                tiers@.len() == config.capacity_tiers@.len(),
                forall|a2: int|
                    0 <= a2 < agents@.len() ==> {
                        let a = #[trigger] agents@[a2];
                        a.wf() && a.tier_id < tiers@.len() && a.age == 0 && a.deorbited == false
                    },
                forall|k: int|
                    0 <= k < tiers@.len() ==> {
                        let t = #[trigger] tiers@[k];
                        let t0 = tr_built[k];
                        t.wf() && t.id == k && t.current_count <= j && tier_same_config(t0, t)
                            && t.current_count == count_members(agents@.subrange(0, j as int), k)
                    },
            decreases agents@.len() - j,
        {
            proof {
                assert(agents@.subrange(0, j + 1).drop_last() =~= agents@.subrange(0, j as int));
                assert(agents@.subrange(0, j + 1) =~= agents@.subrange(0, j as int).push(
                    agents@[j as int],
                ));
                assert forall|k: int| 0 <= k < tiers@.len() implies count_members(
                    agents@.subrange(0, j + 1),
                    k,
                ) == count_members(agents@.subrange(0, j as int), k) + (if agents@[j as int].tier_id
                    == k && !agents@[j as int].deorbited {
                    1int
                } else {
                    0int
                }) by {
                    lemma_count_members_push(agents@.subrange(0, j as int), k, agents@[j as int]);
                }
            }
            let tid = agents[j].tier_id;
            let tref = &mut tiers[tid];
            tref.add_agent();
            j = j + 1;
        }
        proof {
            assert(agents@.subrange(0, agents@.len() as int) =~= agents@);
        }
        // Launch ids come from a range disjoint from the initial ids: the
        // stock offset, pushed up when the initial population would reach
        // into it.
        let mut policy = PolicyEngine::new(config.policy);
        if config.initial_agents > policy.next_agent_id {
            policy.next_agent_id = config.initial_agents;
        }
        SimulationEngine {
            dynamics: SystemDynamics::new(),
            policy,
            language: LanguageGenerator::new(config.reporting),
            rng,
            config,
            tiers,
            agents,
            events: Vec::new(),
            current_time: 0,
        }
    }

    /// Run the whole simulation. The results carry, provably: a report for
    /// exactly the ticks that are multiples of the report interval, each
    /// internally consistent (its stability class classifies its own ground
    /// truth, its recent-event count counts the log in its trailing
    /// window); a timestamp-monotone event log confined to the run's ticks;
    /// a cascading-failure tally that counts exactly the CascadingFailure
    /// events of the log; and, for a run with no initial agents and a zero
    /// launch rate, an empty log and a zero final population.
    pub fn run(&mut self) -> (results: SimulationResults)
        requires
            old(self).wf(),
            old(self).fresh(),
        ensures
            ({
                let cfg = old(self).spec_config();
                let iv = cfg.reporting.report_interval as int;
                let steps = cfg.time_steps as int;
                &&& results.reports@.len() == spec_num_reports(steps, iv)
            &&& forall|i: int|
                0 <= i < results.reports@.len() ==> (#[trigger] results.reports@[i]).timestamp
                    == i * iv
            &&& forall|i: int|
                0 <= i < results.reports@.len() ==> {
                    let rp = #[trigger] results.reports@[i];
                    rp.stability_class@ == spec_class_label(
                        spec_classify(rp.ground_truth_utilization as int),
                    )
                }
            &&& forall|i: int|
                0 <= i < results.reports@.len() ==> {
                    let rp = #[trigger] results.reports@[i];
                    let lo = if rp.timestamp >= iv {
                        rp.timestamp - iv
                    } else {
                        0
                    };
                    rp.recent_events == count_in_window(results.events@, lo, rp.timestamp as int)
                }
            &&& results.cascading_failures == count_kind(
                results.events@,
                EventType::CascadingFailure,
            )
            &&& forall|k: int|
                0 <= k < results.events@.len() ==> (#[trigger] results.events@[k]).timestamp
                    < steps
            &&& forall|k1: int, k2: int|
                0 <= k1 <= k2 < results.events@.len() ==> (#[trigger] results.events@[k1]).timestamp
                    <= (#[trigger] results.events@[k2]).timestamp
            &&& (cfg.initial_agents == 0 && cfg.policy.launch_rate == 0) ==> (
            results.final_agent_count == 0 && results.events@.len() == 0)
            &&& results.final_agent_count <= cfg.initial_agents + count_kind(
                results.events@,
                EventType::Launch,
            )
            &&& (cfg.policy.launch_rate == 0 && (forall|i: int|
                0 <= i < old(self).spec_tiers().len() ==> (#[trigger] old(
                    self,
                ).spec_tiers()[i]).spec_utilization() <= cfg.policy.deorbit_threshold)) ==> (
            results.reports@.len() >= 1 && results.reports@[0].ground_truth_utilization
                == spec_avg_util(old(self).spec_tiers()) && results.reports@[0].ground_truth_risk
                == spec_avg_rate(old(self).spec_tiers()) && results.reports@[0].agent_count == old(
                self,
            ).spec_agents().len())
            }),
    {
        let ghost cfg = self.config;
        let ghost tr_init = self.tiers@;
        let ghost ag_init = self.agents@;
        let ghost quiet0 = cfg.policy.launch_rate == 0 && (forall|i: int|
            0 <= i < tr_init.len() ==> (#[trigger] tr_init[i]).spec_utilization()
                <= cfg.policy.deorbit_threshold);
        let mut reports: Vec<StatusReport> = Vec::new();
        let time_steps = self.config.time_steps;
        let iv = self.config.reporting.report_interval;
        let mut t: u64 = 0;
        proof {
            lemma_fundamental_div_mod_converse(iv as int - 1, iv as int, 0, iv as int - 1);
            assert(spec_num_reports(0, iv as int) == 0);
            assert(count_kind(Seq::<Event>::empty(), EventType::Launch) == 0);
        }
        while t < time_steps
            invariant
                self.config == cfg,
                cfg.wf(),
                time_steps == cfg.time_steps,
                iv == cfg.reporting.report_interval,
                t <= time_steps,
                self.current_time <= t,
                self.tiers@.len() == cfg.capacity_tiers@.len(),
                forall|i: int|
                    0 <= i < self.tiers@.len() ==> {
                        let tr = #[trigger] self.tiers@[i];
                        tr.wf() && tr.id == i && tr.current_count <= cfg.initial_agents + t
                    },
                forall|j: int|
                    0 <= j < self.agents@.len() ==> {
                        let a = #[trigger] self.agents@[j];
                        a.wf() && a.tier_id < self.tiers@.len() && a.age <= t
                    },
                self.policy.config == cfg.policy,
                self.policy.next_agent_id <= LAUNCH_ID_START + cfg.initial_agents + t,
                self.language.config == cfg.reporting,
                forall|k: int|
                    0 <= k < self.events@.len() ==> (#[trigger] self.events@[k]).timestamp < t,
                forall|k1: int, k2: int|
                    0 <= k1 <= k2 < self.events@.len() ==> (#[trigger] self.events@[k1]).timestamp
                        <= (#[trigger] self.events@[k2]).timestamp,
                reports@.len() == spec_num_reports(t as int, iv as int),
                forall|i: int|
                    0 <= i < reports@.len() ==> (#[trigger] reports@[i]).timestamp == i * (
                    iv as int) && reports@[i].timestamp < t,
                forall|i: int|
                    0 <= i < reports@.len() ==> {
                        let rp = #[trigger] reports@[i];
                        rp.stability_class@ == spec_class_label(
                            spec_classify(rp.ground_truth_utilization as int),
                        )
                    },
                forall|i: int|
                    0 <= i < reports@.len() ==> {
                        let rp = #[trigger] reports@[i];
                        let lo = if rp.timestamp >= iv {
                            rp.timestamp - iv
                        } else {
                            0
                        };
                        rp.recent_events == count_in_window(self.events@, lo, rp.timestamp as int)
                    },
                (cfg.initial_agents == 0 && cfg.policy.launch_rate == 0) ==> (self.agents@.len()
                    == 0 && self.events@.len() == 0 && forall|i: int|
                    0 <= i < self.tiers@.len() ==> (#[trigger] self.tiers@[i]).current_count == 0),
                counts_match(self.tiers@, self.agents@),
                forall|j: int|
                    0 <= j < self.agents@.len() ==> !(#[trigger] self.agents@[j]).deorbited,
                self.agents@.len() <= cfg.initial_agents + count_kind(
                    self.events@,
                    EventType::Launch,
                ),
                quiet0 == (cfg.policy.launch_rate == 0 && (forall|i: int|
                    0 <= i < tr_init.len() ==> (#[trigger] tr_init[i]).spec_utilization()
                        <= cfg.policy.deorbit_threshold)),
                t == 0 ==> self.tiers@ == tr_init && self.agents@ == ag_init,
                quiet0 ==> (reports@.len() >= 1 ==> {
                    let rp = reports@[0];
                    rp.ground_truth_utilization == spec_avg_util(tr_init) && rp.ground_truth_risk
                        == spec_avg_rate(tr_init) && rp.agent_count == ag_init.len()
                }),
            decreases time_steps - t,
        {
            self.current_time = t;
            let ghost evs_tick0 = self.events@;
            let ghost ag_tick0 = self.agents@;
            let ghost tr_tick0 = self.tiers@;
            self.dynamics.update(
                &self.tiers,
                &mut self.agents,
                &mut self.events,
                t,
                &mut self.rng,
            );
            let ghost evs_mid = self.events@;
            let ghost ag_mid = self.agents@;
            self.policy.apply(
                &mut self.tiers,
                &mut self.agents,
                &mut self.events,
                t,
                &mut self.rng,
            );
            proof {
                let evs2 = self.events@;
                assert forall|k: int| 0 <= k < evs_tick0.len() implies #[trigger] evs2[k]
                    == evs_tick0[k] by {
                    assert(evs2[k] == evs2.subrange(0, evs_mid.len() as int)[k]);
                    assert(evs2[k] == evs_mid[k]);
                    assert(evs_mid[k] == evs_mid.subrange(0, evs_tick0.len() as int)[k]);
                    assert(evs_mid[k] == evs_tick0[k]);
                }
                assert forall|k: int| evs_tick0.len() <= k < evs2.len() implies (
                #[trigger] evs2[k]).timestamp == t by {
                    if k < evs_mid.len() {
                        assert(evs2[k] == evs2.subrange(0, evs_mid.len() as int)[k]);
                        assert(evs2[k] == evs_mid[k]);
                        assert(evs_mid[k].timestamp == t);
                    }
                }
                assert(evs2.subrange(0, evs_tick0.len() as int) =~= evs_tick0);
                assert forall|k1: int, k2: int| 0 <= k1 <= k2 < evs2.len() implies (
                #[trigger] evs2[k1]).timestamp <= (#[trigger] evs2[k2]).timestamp by {
                    if k2 < evs_tick0.len() {
                        assert(evs2[k1] == evs_tick0[k1] && evs2[k2] == evs_tick0[k2]);
                    } else if k1 < evs_tick0.len() {
                        assert(evs2[k1] == evs_tick0[k1]);
                        assert(evs_tick0[k1].timestamp < t);
                        assert(evs2[k2].timestamp == t);
                    } else {
                        assert(evs2[k1].timestamp == t && evs2[k2].timestamp == t);
                    }
                }
                assert forall|i: int| 0 <= i < reports@.len() implies {
                    let rp = #[trigger] reports@[i];
                    let lo = if rp.timestamp >= iv {
                        rp.timestamp - iv
                    } else {
                        0
                    };
                    rp.recent_events == count_in_window(self.events@, lo, rp.timestamp as int)
                } by {
                    let rp = reports@[i];
                    let lo = if rp.timestamp >= iv {
                        rp.timestamp - iv
                    } else {
                        0int
                    };
                    lemma_count_window_extend(evs_tick0, self.events@, lo, rp.timestamp as int);
                }
                assert forall|j: int| 0 <= j < self.agents@.len() implies {
                    let a = #[trigger] self.agents@[j];
                    a.wf() && a.tier_id < self.tiers@.len() && a.age <= t + 1
                } by {
                    if j < ag_tick0.len() {
                        assert(crate::dynamics::aged_weaker(ag_tick0[j], ag_mid[j]));
                        assert(crate::policy::policy_evolved(ag_mid[j], self.agents@[j]));
                    } else if j < ag_mid.len() {
                        assert(crate::policy::policy_evolved(ag_mid[j], self.agents@[j]));
                    } else {
                        assert(j == self.agents@.len() - 1);
                        assert(self.agents@[j] == self.agents@.last());
                    }
                }
                assert forall|j: int|
                    0 <= j < ag_mid.len() implies (#[trigger] ag_mid[j]).tier_id
                    == ag_tick0[j].tier_id && ag_mid[j].deorbited == ag_tick0[j].deorbited by {
                    assert(crate::dynamics::aged_weaker(ag_tick0[j], ag_mid[j]));
                }
                assert forall|i: int| #[trigger]
                    count_members(ag_mid, i) == count_members(ag_tick0, i) by {
                    lemma_count_members_pointwise(ag_mid, ag_tick0, i);
                }
                assert(counts_match(tr_tick0, ag_mid));
                assert(counts_match(self.tiers@, self.agents@));
                assert forall|k: int|
                    evs_tick0.len() <= k < evs_mid.len() implies (#[trigger] evs_mid[k]).event_type
                    != EventType::Launch by {}
                lemma_count_kind_extend(evs_tick0, evs_mid, EventType::Launch);
                assert(self.agents@.len() <= cfg.initial_agents + count_kind(
                    self.events@,
                    EventType::Launch,
                ));
                assert forall|j: int|
                    0 <= j < self.agents@.len() && (#[trigger] self.agents@[j]).deorbited implies self.agents@[j].health
                    == 0 by {
                    if j < ag_mid.len() {
                        assert(!ag_mid[j].deorbited);
                        if !crate::policy::mitigated(ag_mid[j], self.agents@[j]) {
                            assert(crate::policy::policy_evolved(ag_mid[j], self.agents@[j])
                                && self.agents@[j].deorbited && self.agents@[j].health == 0);
                        }
                    } else {
                        assert(self.agents@[j] == self.agents@.last());
                    }
                }
                if quiet0 && t == 0 {
                    assert(tr_tick0 == tr_init);
                    assert forall|i: int|
                        0 <= i < tr_tick0.len() implies (#[trigger] tr_tick0[i]).spec_utilization()
                        <= cfg.policy.deorbit_threshold by {
                        assert(tr_tick0[i] == tr_init[i]);
                    }
                    assert(self.tiers@ == tr_init);
                    assert(self.agents@.len() == ag_init.len());
                }
            }
            if t % iv == 0 {
                let report = self.generate_report(t);
                proof {
                    lemma_num_reports_step(t as int, iv as int);
                    let q = t as int / iv as int;
                    lemma_fundamental_div_mod(t as int, iv as int);
                    assert((iv as int) * q == q * (iv as int)) by (nonlinear_arith);
                    assert(q * (iv as int) == t as int);
                }
                let ghost reports_before = reports@;
                reports.push(report);
                proof {
                    if quiet0 {
                        if reports_before.len() >= 1 {
                            assert(reports@[0] == reports_before[0]);
                        } else {
                            assert(t == 0);
                            assert(reports@[0] == report);
                        }
                    }
                }
            } else {
                proof {
                    lemma_num_reports_step(t as int, iv as int);
                }
            }
            let ghost ag_pre_cleanup = self.agents@;
            self.cleanup_agents();
            proof {
                assert forall|j: int| 0 <= j < self.agents@.len() implies {
                    let a = #[trigger] self.agents@[j];
                    a.wf() && a.tier_id < self.tiers@.len() && a.age <= t + 1
                } by {
                    let i = choose|i: int|
                        0 <= i < ag_pre_cleanup.len() && self.agents@[j] == ag_pre_cleanup[i];
                    assert(ag_pre_cleanup[i].wf());
                }
                if cfg.initial_agents == 0 && cfg.policy.launch_rate == 0 {
                    assert(ag_pre_cleanup.len() == 0);
                    assert(self.agents@ =~= ag_pre_cleanup.filter(|a: Agent| a.spec_is_alive()));
                    assert(self.agents@.len() == 0);
                }
                assert forall|j: int|
                    0 <= j < self.agents@.len() implies !(#[trigger] self.agents@[j]).deorbited by {
                    let i = choose|i: int|
                        0 <= i < ag_pre_cleanup.len() && self.agents@[j] == ag_pre_cleanup[i];
                    assert(self.agents@[j].spec_is_alive());
                    if ag_pre_cleanup[i].deorbited {
                        assert(ag_pre_cleanup[i].health == 0);
                    }
                }
            }
            t = t + 1;
        }
        proof {
            if quiet0 {
                lemma_div_is_ordered(iv as int, time_steps as int + iv as int - 1, iv as int);
                assert(1 * (iv as int) == iv as int);
                lemma_div_by_multiple(1, iv as int);
                assert(spec_num_reports(time_steps as int, iv as int) >= 1);
            }
            assert(tr_init == old(self).spec_tiers());
            assert(ag_init == old(self).spec_agents());
        }
        let cascading_failures = count_events_of_kind(&self.events, EventType::CascadingFailure);
        let final_agent_count = self.agents.len();
        let mut events_out: Vec<Event> = Vec::new();
        core::mem::swap(&mut events_out, &mut self.events);
        SimulationResults { reports, events: events_out, final_agent_count, cascading_failures }
    }

    /// Build one status report: exact means over the tiers, the stability
    /// class of the mean utilization, the count of logged events in the
    /// trailing window, and the narrative generated from the same inputs.
    fn generate_report(&self, timestamp: u64) -> (rp: StatusReport)
        requires
            self.config.wf(),
            self.tiers@.len() >= 1,
            forall|i: int| 0 <= i < self.tiers@.len() ==> (#[trigger] self.tiers@[i]).wf(),
            self.language.config == self.config.reporting,
        ensures
            rp.timestamp == timestamp,
            rp.ground_truth_utilization == spec_avg_util(self.tiers@),
            rp.ground_truth_risk == spec_avg_rate(self.tiers@),
            rp.agent_count == self.agents@.len(),
            rp.stability_class@ == spec_class_label(
                spec_classify(rp.ground_truth_utilization as int),
            ),
            ({
                let lo = if timestamp >= self.config.reporting.report_interval {
                    timestamp - self.config.reporting.report_interval
                } else {
                    0
                };
                rp.recent_events == count_in_window(self.events@, lo, timestamp as int)
            }),
            rp.report_text@ == spec_narrative(
                self.tiers@,
                spec_avg_util(self.tiers@),
                spec_avg_rate(self.tiers@),
                rp.recent_events as int,
                spec_classify(spec_avg_util(self.tiers@)),
                self.config.reporting.hedging_enabled,
                self.config.reporting.confidence_modulation,
            ),
    {
        let avg_util = average_utilization(&self.tiers);
        let avg_risk = average_rate(&self.tiers);
        let stability = classify_stability(avg_util);
        let lo = if timestamp >= self.config.reporting.report_interval {
            timestamp - self.config.reporting.report_interval
        } else {
            0
        };
        let recent_events = count_events_in_window(&self.events, lo, timestamp);
        let report_text = self.language.generate_report(
            &self.tiers,
            avg_util,
            avg_risk,
            recent_events,
            stability,
        );
        StatusReport {
            timestamp,
            report_text,
            ground_truth_utilization: avg_util,
            ground_truth_risk: avg_risk,
            agent_count: self.agents.len(),
            stability_class: class_label(stability),
            recent_events,
        }
    }

    /// Cleanup: remove exactly the agents whose health is at or below the
    /// death threshold, in order, and release each removed agent's slot in
    /// its own tier — unless a forced deorbit already released it this
    /// tick, which the deorbited mark records.
    fn cleanup_agents(&mut self)
        requires
            forall|i: int| 0 <= i < old(self).tiers@.len() ==> (#[trigger] old(self).tiers@[i]).wf(),
            forall|j: int|
                0 <= j < old(self).agents@.len() ==> (#[trigger] old(self).agents@[j]).wf() && old(
                    self,
                ).agents@[j].tier_id < old(self).tiers@.len(),
        ensures
            final(self).agents@ == old(self).agents@.filter(|a: Agent| a.spec_is_alive()),
            forall|j: int|
                0 <= j < final(self).agents@.len() ==> exists|i: int|
                    0 <= i < old(self).agents@.len() && #[trigger] final(self).agents@[j] == old(
                        self,
                    ).agents@[i],
            final(self).tiers@.len() == old(self).tiers@.len(),
            forall|i: int|
                0 <= i < old(self).tiers@.len() ==> {
                    let t0 = old(self).tiers@[i];
                    let t1 = #[trigger] final(self).tiers@[i];
                    tier_same_config(t0, t1) && t1.current_count
                        <= t0.current_count && t1.wf()
                },
            forall|j: int|
                0 <= j < final(self).agents@.len() ==> (#[trigger] final(self).agents@[j]).spec_is_alive(),
            counts_match(old(self).tiers@, old(self).agents@) ==> counts_match(
                final(self).tiers@,
                final(self).agents@,
            ),
            final(self).events@ == old(self).events@,
            final(self).config == old(self).config,
            final(self).policy == old(self).policy,
            final(self).language == old(self).language,
            final(self).current_time == old(self).current_time,
    {
        let ghost ag0 = self.agents@;
        let ghost tr0 = self.tiers@;
        let mut kept: Vec<Agent> = Vec::new();
        let mut i: usize = 0;
        proof {
            assert(ag0.subrange(0, 0) =~= Seq::<Agent>::empty());
            reveal(Seq::filter);
            if counts_match(tr0, ag0) {
                assert(ag0.subrange(0, ag0.len() as int) =~= ag0);
                assert forall|ti: int|
                    0 <= ti < self.tiers@.len() implies (#[trigger] self.tiers@[ti]).current_count
                    == count_members(Seq::<Agent>::empty(), ti) + count_members(
                    ag0.subrange(0, ag0.len() as int),
                    ti,
                ) by {
                    assert(count_members(Seq::<Agent>::empty(), ti) == 0);
                    assert(self.tiers@[ti].current_count == count_members(ag0, ti));
                }
            }
        }
        while i < self.agents.len()
            invariant
                i <= self.agents@.len(),
                self.agents@ == ag0,
                forall|j: int|
                    0 <= j < ag0.len() ==> (#[trigger] ag0[j]).wf() && ag0[j].tier_id
                        < self.tiers@.len(),
                kept@ == ag0.subrange(0, i as int).filter(|a: Agent| a.spec_is_alive()),
                forall|j: int|
                    0 <= j < kept@.len() ==> exists|i2: int|
                        0 <= i2 < ag0.len() && #[trigger] kept@[j] == ag0[i2],
                forall|j: int|
                    0 <= j < kept@.len() ==> (#[trigger] kept@[j]).spec_is_alive(),
                counts_match(tr0, ag0) ==> (forall|ti: int|
                    0 <= ti < self.tiers@.len() ==> (#[trigger] self.tiers@[ti]).current_count
                        == count_members(kept@, ti) + count_members(
                        ag0.subrange(i as int, ag0.len() as int),
                        ti,
                    )),
                self.tiers@.len() == tr0.len(),
                forall|k: int|
                    0 <= k < tr0.len() ==> {
                        let t0 = tr0[k];
                        let t1 = #[trigger] self.tiers@[k];
                        tier_same_config(t0, t1) && t1.current_count
                            <= t0.current_count && t1.wf()
                    },
                self.events@ == old(self).events@,
                self.config == old(self).config,
                self.policy == old(self).policy,
                self.language == old(self).language,
                self.current_time == old(self).current_time,
            decreases self.agents@.len() - i,
        {
            proof {
                reveal(Seq::filter);
                assert(ag0.subrange(0, i + 1).drop_last() =~= ag0.subrange(0, i as int));
                assert(ag0.subrange(0, i + 1).last() == ag0[i as int]);
                assert(ag0.subrange(i as int, ag0.len() as int)[0] == ag0[i as int]);
                assert(ag0.subrange(i as int, ag0.len() as int).skip(1) =~= ag0.subrange(
                    i + 1,
                    ag0.len() as int,
                ));
            }
            let ghost kept0 = kept@;
            let ghost tr_pre = self.tiers@;
            let a = self.agents[i];
            if a.is_alive() {
                kept.push(a);
                proof {
                    if counts_match(tr0, ag0) {
                        assert forall|ti: int|
                            0 <= ti < self.tiers@.len() implies (
                        #[trigger] self.tiers@[ti]).current_count == count_members(kept@, ti)
                            + count_members(ag0.subrange(i + 1, ag0.len() as int), ti) by {
                            lemma_count_members_push(kept0, ti, a);
                        }
                    }
                }
            } else {
                if !a.deorbited {
                    let tid = a.tier_id;
                    proof {
                        if counts_match(tr0, ag0) {
                            crate::agent::lemma_count_members_member(
                                ag0.subrange(i as int, ag0.len() as int),
                                tid as int,
                                0,
                            );
                            lemma_count_members_bounds(kept0, tid as int);
                        }
                    }
                    let tref = &mut self.tiers[tid];
                    tref.remove_agent();
                }
            }
            i = i + 1;
        }
        proof {
            assert(ag0.subrange(0, ag0.len() as int) =~= ag0);
            if counts_match(tr0, ag0) {
                assert(ag0.subrange(ag0.len() as int, ag0.len() as int) =~= Seq::<Agent>::empty());
                assert forall|ti: int|
                    0 <= ti < self.tiers@.len() implies (#[trigger] self.tiers@[ti]).current_count
                    == count_members(kept@, ti) by {
                    assert(count_members(Seq::<Agent>::empty(), ti) == 0);
                }
            }
        }
        self.agents = kept;
    }
}

} // verus!
