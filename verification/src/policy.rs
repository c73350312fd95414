//! Per-tick policy: launching new agents, mitigation healing, and forced
//! deorbits from over-full tiers.

use crate::agent::Agent;
use crate::agent::MITIGATION_HEAL;
use crate::agent::count_members;
use crate::agent::lemma_count_members_member;
use crate::agent::lemma_count_members_pointwise;
use crate::agent::lemma_count_members_push;
use crate::agent::lemma_count_members_update;
use crate::config::PolicyConfig;
use crate::event::Event;
use crate::event::EventType;
use crate::event::count_kind;
use crate::event::lemma_count_kind_extend;
use crate::fixed::COUNT_LIMIT;
use crate::fixed::SCALE;
use crate::rng::SimulationRng;
use crate::tier::CapacityTier;
use vstd::prelude::*;

verus! {

/// Fixed probability of picking a scanned agent as the deorbit candidate (0.3).
pub const DEORBIT_PICK_PROB: u64 = 300_000;

/// First id handed to launched agents. Initial agents are numbered from
/// zero; the engine pushes this start up whenever the initial population
/// would reach into it, so the two id ranges never collide.
pub const LAUNCH_ID_START: u64 = 10_000;

/// How one agent may come out of a policy pass: same identity fields and
/// age, still well-formed. Health may rise (mitigation) or drop to zero
/// with the deorbited mark set (forced deorbit).
pub open spec fn policy_evolved(a0: Agent, a1: Agent) -> bool {
    &&& a1.id == a0.id
&&& a1.tier_id == a0.tier_id
&&& a1.compliance == a0.compliance
&&& a1.age == a0.age
&&& a1.wf()
&&& (a1.deorbited == a0.deorbited || (a1.deorbited && a1.health == 0))
}

/// How one agent may come out of the mitigation pass: a non-compliant
/// agent is untouched; a compliant one is either untouched or healed by
/// exactly one mitigation step.
pub open spec fn mitigated(a0: Agent, a1: Agent) -> bool {
    &&& policy_evolved(a0, a1)
&&& a1.deorbited == a0.deorbited
&&& (!a0.compliance ==> a1 == a0)
&&& (a1.health == a0.health || a1.health == if a0.health + MITIGATION_HEAL <= SCALE {
    a0.health + MITIGATION_HEAL
} else {
    SCALE as int
})
}

/// A forced deorbit: the agent keeps its identity and age, but its health
/// is zeroed and the deorbited mark is set.
pub open spec fn deorbit_killed(a0: Agent, a1: Agent) -> bool {
    &&& a1.id == a0.id
&&& a1.tier_id == a0.tier_id
&&& a1.compliance == a0.compliance
&&& a1.age == a0.age
&&& a1.health == 0
&&& a1.deorbited
}

/// Every tier's count equals its current membership: the agents assigned
/// to it whose slot no forced deorbit has released yet.
pub open spec fn counts_match(tiers: Seq<CapacityTier>, agents: Seq<Agent>) -> bool {
    forall|i: int|
        0 <= i < tiers.len() ==> (#[trigger] tiers[i]).current_count == count_members(agents, i)
}

/// Tier fields other than the count are never touched by policy.
pub open spec fn tier_same_config(t0: CapacityTier, t1: CapacityTier) -> bool {
    &&& t1.id == t0.id
&&& t1.name == t0.name
&&& t1.max_capacity == t0.max_capacity
&&& t1.congestion_threshold == t0.congestion_threshold
&&& t1.failure_base_rate == t0.failure_base_rate
}

pub struct PolicyEngine {
    pub config: PolicyConfig,
    pub next_agent_id: u64,
}

impl PolicyEngine {
    pub fn new(config: PolicyConfig) -> (p: PolicyEngine)
        ensures
            p.config == config,
            p.next_agent_id == LAUNCH_ID_START,
    {
        PolicyEngine { config, next_agent_id: LAUNCH_ID_START }
    }

    /// One tick of policy, in fixed order: launch, mitigation, deorbit.
    pub fn apply(
        &mut self,
        tiers: &mut Vec<CapacityTier>,
        agents: &mut Vec<Agent>,
        events: &mut Vec<Event>,
        timestamp: u64,
        rng: &mut SimulationRng,
    )
        requires
            old(self).config.wf(),
            old(self).next_agent_id < u64::MAX,
            old(tiers)@.len() >= 1,
            forall|i: int|
                0 <= i < old(tiers)@.len() ==> (#[trigger] old(tiers)@[i]).wf() && old(
                    tiers,
                )@[i].current_count < COUNT_LIMIT,
            forall|j: int|
                0 <= j < old(agents)@.len() ==> (#[trigger] old(agents)@[j]).wf() && old(
                    agents,
                )@[j].tier_id < old(tiers)@.len(),
        ensures
            final(self).config == old(self).config,
            old(self).next_agent_id <= final(self).next_agent_id <= old(self).next_agent_id + 1,
            final(tiers)@.len() == old(tiers)@.len(),
            forall|i: int|
                0 <= i < old(tiers)@.len() ==> {
                    let t0 = old(tiers)@[i];
                    let t1 = #[trigger] final(tiers)@[i];
                    tier_same_config(t0, t1) && t1.current_count <= t0.current_count + 1
                        && t1.wf()
                },
            old(agents)@.len() <= final(agents)@.len() <= old(agents)@.len() + 1,
            forall|j: int|
                0 <= j < old(agents)@.len() ==> policy_evolved(
                    old(agents)@[j],
                    #[trigger] final(agents)@[j],
                ),
            final(agents)@.len() > old(agents)@.len() ==> {
                let a = final(agents)@.last();
                a.wf() && a.age == 0 && a.id == old(self).next_agent_id && a.tier_id < old(
                    tiers,
                )@.len() && (a.deorbited ==> a.health == 0)
            },
            final(events)@.len() >= old(events)@.len(),
            final(events)@.subrange(0, old(events)@.len() as int) == old(events)@,
            forall|k: int|
                old(events)@.len() <= k < final(events)@.len() ==> {
                    let e = #[trigger] final(events)@[k];
                    e.timestamp == timestamp && (e.event_type == EventType::Launch
                        || e.event_type == EventType::Deorbit)
                },
            (old(self).config.launch_rate == 0 && old(agents)@.len() == 0) ==> final(agents)@
                == old(agents)@ && final(tiers)@ == old(tiers)@ && final(events)@ == old(events)@
                && final(self).next_agent_id == old(self).next_agent_id,
            final(self).next_agent_id == old(self).next_agent_id + (final(agents)@.len() - old(
                agents,
            )@.len()),
            count_kind(final(events)@, EventType::Launch) == count_kind(
                old(events)@,
                EventType::Launch,
            ) + (final(agents)@.len() - old(agents)@.len()),
            old(self).config.launch_rate >= SCALE ==> final(agents)@.len() == old(agents)@.len()
                + 1,
            forall|j: int|
                0 <= j < old(agents)@.len() ==> mitigated(
                    old(agents)@[j],
                    #[trigger] final(agents)@[j],
                ) || (policy_evolved(old(agents)@[j], final(agents)@[j])
                    && final(agents)@[j].deorbited && final(agents)@[j].health == 0),
            (old(self).config.launch_rate == 0 && (forall|i: int|
                0 <= i < old(tiers)@.len() ==> (#[trigger] old(tiers)@[i]).spec_utilization()
                    <= old(self).config.deorbit_threshold)) ==> final(tiers)@ == old(tiers)@
                && final(events)@ == old(events)@ && final(agents)@.len() == old(agents)@.len()
                && (forall|j: int|
                0 <= j < old(agents)@.len() ==> mitigated(
                    old(agents)@[j],
                    #[trigger] final(agents)@[j],
                )),
            counts_match(old(tiers)@, old(agents)@) ==> counts_match(final(tiers)@, final(agents)@),
    {
        let ghost evs0 = events@;
        let ghost tr0 = tiers@;
        let ghost ag0 = agents@;
        self.launch_agents(tiers, agents, events, timestamp, rng);
        let ghost evs1 = events@;
        let ghost tr1 = tiers@;
        let ghost ag1 = agents@;
        proof {
            assert forall|j: int| 0 <= j < agents@.len() implies (#[trigger] agents@[j]).wf()
                && agents@[j].tier_id < tiers@.len() by {
                if j < ag0.len() {
                    assert(agents@[j] == agents@.subrange(0, ag0.len() as int)[j]);
                    assert(agents@[j] == ag0[j]);
                } else {
                    assert(j == agents@.len() - 1);
                    assert(agents@[j] == agents@.last());
                }
            }
        }
        self.apply_mitigation(tiers, agents, rng);
        let ghost ag2 = agents@;
        self.deorbit_agents(tiers, agents, events, timestamp, rng);
        proof {
            assert(final(events)@.subrange(0, evs0.len() as int) =~= evs1.subrange(
                0,
                evs0.len() as int,
            ));
            assert forall|k: int| evs0.len() <= k < final(events)@.len() implies {
                let e = #[trigger] final(events)@[k];
                e.timestamp == timestamp && (e.event_type == EventType::Launch || e.event_type
                    == EventType::Deorbit)
            } by {
                if k < evs1.len() {
                    assert(final(events)@[k] == final(events)@.subrange(0, evs1.len() as int)[k]);
                    assert(final(events)@[k] == evs1[k]);
                }
            }
            assert forall|j: int| 0 <= j < ag0.len() implies policy_evolved(
                ag0[j],
                #[trigger] final(agents)@[j],
            ) by {
                assert(policy_evolved(ag0[j], ag1[j]));
                assert(policy_evolved(ag1[j], ag2[j]));
                assert(policy_evolved(ag2[j], final(agents)@[j]));
            }
            if final(agents)@.len() > ag0.len() {
                assert(policy_evolved(ag1.last(), ag2.last()));
                assert(policy_evolved(ag2.last(), final(agents)@.last()));
                assert(mitigated(ag1.last(), ag2.last()));
                if final(agents)@.last() != ag2.last() {
                    assert(deorbit_killed(ag2.last(), final(agents)@.last()));
                }
            }
            if old(self).config.launch_rate == 0 && ag0.len() == 0 {
                assert(final(agents)@ =~= ag0);
                assert(final(tiers)@ =~= tr0);
                assert(final(events)@ =~= evs0);
            }
            if ag1.len() > ag0.len() {
                assert(evs1.drop_last() =~= evs1.subrange(0, evs0.len() as int));
                assert(evs1.last().event_type == EventType::Launch);
                assert(count_kind(evs1, EventType::Launch) == count_kind(evs0, EventType::Launch)
                    + 1);
            } else {
                assert(evs1 =~= evs0);
            }
            lemma_count_kind_extend(evs1, final(events)@, EventType::Launch);
            assert forall|j: int| 0 <= j < ag0.len() implies mitigated(
                ag0[j],
                #[trigger] final(agents)@[j],
            ) || (policy_evolved(ag0[j], final(agents)@[j]) && final(agents)@[j].deorbited
                && final(agents)@[j].health == 0) by {
                assert(ag1[j] == ag1.subrange(0, ag0.len() as int)[j]);
                assert(ag1[j] == ag0[j]);
                assert(mitigated(ag1[j], ag2[j]));
                if final(agents)@[j] != ag2[j] {
                    assert(deorbit_killed(ag2[j], final(agents)@[j]));
                    assert(policy_evolved(ag0[j], final(agents)@[j]));
                }
            }
            if old(self).config.launch_rate == 0 && (forall|i: int|
                0 <= i < tr0.len() ==> (#[trigger] tr0[i]).spec_utilization() <= old(
                    self,
                ).config.deorbit_threshold) {
                assert(tr1 =~= tr0);
                assert(ag1 =~= ag0);
                assert(evs1 =~= evs0);
                assert forall|i: int|
                    0 <= i < tr1.len() implies (#[trigger] tr1[i]).spec_utilization() <= old(
                    self,
                ).config.deorbit_threshold by {
                    assert(tr1[i] == tr0[i]);
                }
                assert(final(tiers)@ == tr1);
                assert(final(events)@ == evs1);
                assert forall|j: int| 0 <= j < ag0.len() implies mitigated(
                    ag0[j],
                    #[trigger] final(agents)@[j],
                ) by {
                    assert(ag1[j] == ag0[j]);
                    assert(mitigated(ag1[j], ag2[j]));
                    assert(final(agents)@[j] == ag2[j]);
                }
            }
            if counts_match(tr0, ag0) {
                assert(counts_match(tr1, ag1));
                assert forall|i: int|
                    0 <= i < tr1.len() implies (#[trigger] tr1[i]).current_count == count_members(
                    ag2,
                    i,
                ) by {
                    assert(count_members(ag2, i) == count_members(ag1, i));
                }
                assert(counts_match(tr1, ag2));
                assert(counts_match(final(tiers)@, final(agents)@));
            }
        }
    }

    /// Launch step: one Bernoulli draw with the launch rate; on success a
    /// new agent with the next launch id goes to a uniformly drawn tier,
    /// whose count grows by one, and a Launch event is logged.
    fn launch_agents(
        &mut self,
        tiers: &mut Vec<CapacityTier>,
        agents: &mut Vec<Agent>,
        events: &mut Vec<Event>,
        timestamp: u64,
        rng: &mut SimulationRng,
    )
        requires
            old(self).next_agent_id < u64::MAX,
            old(tiers)@.len() >= 1,
            forall|i: int|
                0 <= i < old(tiers)@.len() ==> (#[trigger] old(tiers)@[i]).wf() && old(
                    tiers,
                )@[i].current_count < COUNT_LIMIT,
        ensures
            final(self).config == old(self).config,
            old(self).next_agent_id <= final(self).next_agent_id <= old(self).next_agent_id + 1,
            final(tiers)@.len() == old(tiers)@.len(),
            forall|i: int|
                0 <= i < old(tiers)@.len() ==> {
                    let t0 = old(tiers)@[i];
                    let t1 = #[trigger] final(tiers)@[i];
                    tier_same_config(t0, t1) && t0.current_count <= t1.current_count
                        <= t0.current_count + 1 && t1.wf()
                },
            old(agents)@.len() <= final(agents)@.len() <= old(agents)@.len() + 1,
            final(agents)@.subrange(0, old(agents)@.len() as int) == old(agents)@,
            final(agents)@.len() > old(agents)@.len() ==> {
                let a = final(agents)@.last();
                a.wf() && a.age == 0 && a.health == SCALE && a.id == old(self).next_agent_id
                    && a.tier_id < old(tiers)@.len() && a.deorbited == false
            },
            final(agents)@.len() > old(agents)@.len() ==> ({
                let a = final(agents)@.last();
                &&& final(tiers)@[a.tier_id as int].current_count == old(tiers)@[a.tier_id as int].current_count
                    + 1
            &&& forall|i: int|
                0 <= i < old(tiers)@.len() && i != a.tier_id ==> final(tiers)@[i] == old(
                    tiers,
                )@[i]
            }),
            final(self).next_agent_id == old(self).next_agent_id + (final(agents)@.len() - old(
                agents,
            )@.len()),
            final(events)@.len() == old(events)@.len() + (final(agents)@.len() - old(
                agents,
            )@.len()),
            final(events)@.len() >= old(events)@.len(),
            final(events)@.subrange(0, old(events)@.len() as int) == old(events)@,
            forall|k: int|
                old(events)@.len() <= k < final(events)@.len() ==> {
                    let e = #[trigger] final(events)@[k];
                    e.timestamp == timestamp && e.event_type == EventType::Launch
                },
            final(agents)@.len() > old(agents)@.len() ==> ({
                let a = final(agents)@.last();
                let e = final(events)@.last();
                e.tier_id == a.tier_id && e.agent_ids@ == seq![a.id]
            }),
            old(self).config.launch_rate >= SCALE ==> final(agents)@.len() == old(agents)@.len()
                + 1,
            old(self).config.launch_rate == 0 ==> final(agents)@ == old(agents)@ && final(tiers)@
                == old(tiers)@ && final(events)@ == old(events)@ && final(self).next_agent_id
                == old(self).next_agent_id,
            counts_match(old(tiers)@, old(agents)@) ==> counts_match(final(tiers)@, final(agents)@),
    {
        if rng.gen_bool(self.config.launch_rate) {
            let tier_id = rng.gen_index(tiers.len());
            let compliance = rng.gen_bool(self.config.compliance_rate);
            let agent = Agent::new(self.next_agent_id, tier_id, compliance);
            let ghost new_agent = agent;
            let agent_id = agent.id;
            self.next_agent_id = self.next_agent_id + 1;
            let tref = &mut tiers[tier_id];
            tref.add_agent();
            events.push(Event::launch(timestamp, tier_id, agent_id));
            agents.push(agent);
            proof {
                assert(final(agents)@.subrange(0, old(agents)@.len() as int) =~= old(agents)@);
                assert(final(events)@.subrange(0, old(events)@.len() as int) =~= old(events)@);
                if counts_match(old(tiers)@, old(agents)@) {
                    assert forall|i: int|
                        0 <= i < final(tiers)@.len() implies (#[trigger] final(tiers)@[i]).current_count
                        == count_members(final(agents)@, i) by {
                        lemma_count_members_push(old(agents)@, i, new_agent);
                        assert(old(tiers)@[i].current_count == count_members(old(agents)@, i));
                    }
                }
            }
        } else {
            proof {
                assert(final(agents)@.subrange(0, old(agents)@.len() as int) =~= old(agents)@);
                assert(final(events)@.subrange(0, old(events)@.len() as int) =~= old(events)@);
                if counts_match(old(tiers)@, old(agents)@) {
                    assert forall|i: int|
                        0 <= i < final(tiers)@.len() implies (#[trigger] final(tiers)@[i]).current_count
                        == count_members(final(agents)@, i) by {
                        assert(old(tiers)@[i].current_count == count_members(old(agents)@, i));
                    }
                }
            }
        }
    }

    /// Mitigation step: every compliant agent is independently tested with
    /// probability `mitigation_strength / 10`; a success heals it by one
    /// hundredth, capped at full health. Non-compliant agents draw nothing.
    fn apply_mitigation(
        &self,
        _tiers: &Vec<CapacityTier>,
        agents: &mut Vec<Agent>,
        rng: &mut SimulationRng,
    )
        requires
            forall|j: int| 0 <= j < old(agents)@.len() ==> (#[trigger] old(agents)@[j]).wf(),
        ensures
            final(agents)@.len() == old(agents)@.len(),
            forall|j: int|
                0 <= j < old(agents)@.len() ==> mitigated(
                    old(agents)@[j],
                    #[trigger] final(agents)@[j],
                ),
            forall|i: int|
                #[trigger] count_members(final(agents)@, i) == count_members(old(agents)@, i),
            old(agents)@.len() == 0 ==> final(agents)@ == old(agents)@,
    {
        let p = self.config.mitigation_strength / 10;
        let mut i: usize = 0;
        while i < agents.len()
            invariant
                i <= agents@.len(),
                agents@.len() == old(agents)@.len(),
                forall|j: int| 0 <= j < old(agents)@.len() ==> (#[trigger] old(agents)@[j]).wf(),
                forall|j: int|
                    i <= j < agents@.len() ==> #[trigger] agents@[j] == old(agents)@[j],
                forall|j: int|
                    0 <= j < i ==> mitigated(old(agents)@[j], #[trigger] agents@[j]),
            decreases agents@.len() - i,
        {
            if agents[i].compliance {
                if rng.gen_bool(p) {
                    let mut a = agents[i];
                    proof {
                        assert(a == old(agents)@[i as int]);
                    }
                    a.heal();
                    agents[i] = a;
                }
            }
            i = i + 1;
        }
        proof {
            if old(agents)@.len() == 0 {
                assert(final(agents)@ =~= old(agents)@);
            }
            assert forall|i: int| #[trigger] count_members(final(agents)@, i) == count_members(
                old(agents)@,
                i,
            ) by {
                lemma_count_members_pointwise(final(agents)@, old(agents)@, i);
            }
        }
    }

    /// Deorbit step: every tier whose utilization exceeds the deorbit
    /// threshold scans its agents in population order and marks the first
    /// one that passes a fixed 0.3 draw (at most one per tier per tick).
    /// Each candidate is killed, its own tier's count is released at once,
    /// and a Deorbit event is logged; the deorbited mark keeps cleanup from
    /// releasing the slot a second time, and a candidate already marked is
    /// left alone for the same reason.
    fn deorbit_agents(
        &mut self,
        tiers: &mut Vec<CapacityTier>,
        agents: &mut Vec<Agent>,
        events: &mut Vec<Event>,
        timestamp: u64,
        rng: &mut SimulationRng,
    )
        requires
            forall|i: int| 0 <= i < old(tiers)@.len() ==> (#[trigger] old(tiers)@[i]).wf(),
            forall|j: int|
                0 <= j < old(agents)@.len() ==> (#[trigger] old(agents)@[j]).wf() && old(
                    agents,
                )@[j].tier_id < old(tiers)@.len(),
        ensures
            final(self).config == old(self).config,
            final(self).next_agent_id == old(self).next_agent_id,
            final(tiers)@.len() == old(tiers)@.len(),
            forall|i: int|
                0 <= i < old(tiers)@.len() ==> {
                    let t0 = old(tiers)@[i];
                    let t1 = #[trigger] final(tiers)@[i];
                    tier_same_config(t0, t1) && t1.current_count <= t0.current_count && t1.wf()
                },
            final(agents)@.len() == old(agents)@.len(),
            forall|j: int|
                0 <= j < old(agents)@.len() ==> policy_evolved(
                    old(agents)@[j],
                    #[trigger] final(agents)@[j],
                ),
            forall|j: int|
                0 <= j < old(agents)@.len() ==> (#[trigger] final(agents)@[j]) == old(agents)@[j]
                    || deorbit_killed(old(agents)@[j], final(agents)@[j]),
            final(events)@.len() >= old(events)@.len(),
            final(events)@.subrange(0, old(events)@.len() as int) == old(events)@,
            forall|k: int|
                old(events)@.len() <= k < final(events)@.len() ==> {
                    let e = #[trigger] final(events)@[k];
                    e.timestamp == timestamp && e.event_type == EventType::Deorbit
                },
            old(agents)@.len() == 0 ==> final(agents)@ == old(agents)@ && final(tiers)@ == old(
                tiers,
            )@ && final(events)@ == old(events)@,
            (forall|i: int|
                0 <= i < old(tiers)@.len() ==> (#[trigger] old(tiers)@[i]).spec_utilization()
                    <= old(self).config.deorbit_threshold) ==> final(agents)@ == old(agents)@
                && final(tiers)@ == old(tiers)@ && final(events)@ == old(events)@,
            counts_match(old(tiers)@, old(agents)@) ==> counts_match(final(tiers)@, final(agents)@),
    {
        let ghost evs0 = events@;
        let ghost tr0 = tiers@;
        let mut to_deorbit: Vec<u64> = Vec::new();
        let mut t: usize = 0;
        while t < tiers.len()
            invariant
                t <= tiers@.len(),
                tiers@ == tr0,
                forall|i: int| 0 <= i < tiers@.len() ==> (#[trigger] tiers@[i]).wf(),
                agents@.len() == 0 ==> to_deorbit@.len() == 0,
                (forall|i: int|
                    0 <= i < tiers@.len() ==> (#[trigger] tiers@[i]).spec_utilization()
                        <= self.config.deorbit_threshold) ==> to_deorbit@.len() == 0,
            decreases tiers@.len() - t,
        {
            let util = tiers[t].utilization();
            if util > self.config.deorbit_threshold {
                let tid = tiers[t].id;
                let mut j: usize = 0;
                while j < agents.len()
                    invariant
                        j <= agents@.len(),
                        agents@.len() == 0 ==> to_deorbit@.len() == 0,
                    decreases agents@.len() - j,
                {
                    if agents[j].tier_id == tid {
                        if rng.gen_bool(DEORBIT_PICK_PROB) {
                            to_deorbit.push(agents[j].id);
                            break ;
                        }
                    }
                    j = j + 1;
                }
            }
            t = t + 1;
        }
        let mut c: usize = 0;
        while c < to_deorbit.len()
            invariant
                tiers@.len() == tr0.len(),
                forall|i: int|
                    0 <= i < tr0.len() ==> {
                        let t0 = tr0[i];
                        let t1 = #[trigger] tiers@[i];
                        tier_same_config(t0, t1) && t1.current_count <= t0.current_count
                            && t1.wf()
                    },
                agents@.len() == old(agents)@.len(),
                forall|j: int|
                    0 <= j < old(agents)@.len() ==> policy_evolved(
                        old(agents)@[j],
                        #[trigger] agents@[j],
                    ),
                forall|j: int|
                    0 <= j < agents@.len() ==> (#[trigger] agents@[j]).tier_id < tiers@.len(),
                events@.len() >= evs0.len(),
                events@.subrange(0, evs0.len() as int) == evs0,
                forall|k: int|
                    evs0.len() <= k < events@.len() ==> {
                        let e = #[trigger] events@[k];
                        e.timestamp == timestamp && e.event_type == EventType::Deorbit
                    },
                forall|j2: int|
                    0 <= j2 < old(agents)@.len() ==> (#[trigger] agents@[j2]) == old(agents)@[j2]
                        || deorbit_killed(old(agents)@[j2], agents@[j2]),
                counts_match(old(tiers)@, old(agents)@) ==> counts_match(tiers@, agents@),
                to_deorbit@.len() == 0 ==> tiers@ == tr0 && events@ == evs0 && agents@ == old(
                    agents,
                )@,
            decreases to_deorbit@.len() - c,
        {
            let target = to_deorbit[c];
            let mut j: usize = 0;
            while j < agents.len()
                invariant
                    j <= agents@.len(),
                    forall|j2: int|
                        0 <= j2 < old(agents)@.len() ==> (#[trigger] agents@[j2]) == old(
                            agents,
                        )@[j2] || deorbit_killed(old(agents)@[j2], agents@[j2]),
                    counts_match(old(tiers)@, old(agents)@) ==> counts_match(tiers@, agents@),
                    tiers@.len() == tr0.len(),
                    forall|i: int|
                        0 <= i < tr0.len() ==> {
                            let t0 = tr0[i];
                            let t1 = #[trigger] tiers@[i];
                            tier_same_config(t0, t1) && t1.current_count <= t0.current_count
                                && t1.wf()
                        },
                    agents@.len() == old(agents)@.len(),
                    forall|j2: int|
                        0 <= j2 < old(agents)@.len() ==> policy_evolved(
                            old(agents)@[j2],
                            #[trigger] agents@[j2],
                        ),
                    forall|j2: int|
                        0 <= j2 < agents@.len() ==> (#[trigger] agents@[j2]).tier_id
                            < tiers@.len(),
                    events@.len() >= evs0.len(),
                    events@.subrange(0, evs0.len() as int) == evs0,
                    forall|k: int|
                        evs0.len() <= k < events@.len() ==> {
                            let e = #[trigger] events@[k];
                            e.timestamp == timestamp && e.event_type == EventType::Deorbit
                        },
                decreases agents@.len() - j,
            {
                if agents[j].id == target && !agents[j].deorbited {
                    let ghost ag_before = agents@;
                    let ghost tr_before = tiers@;
                    let mut a = agents[j];
                    let tier_id = a.tier_id;
                    a.health = 0;
                    a.deorbited = true;
                    let ghost killed_a = a;
                    agents[j] = a;
                    proof {
                        assert(agents@[j as int].tier_id < tiers@.len());
                        if counts_match(old(tiers)@, old(agents)@) {
                            assert(tr_before[tier_id as int].current_count == count_members(
                                ag_before,
                                tier_id as int,
                            ));
                            lemma_count_members_member(ag_before, tier_id as int, j as int);
                        }
                    }
                    let tref = &mut tiers[tier_id];
                    tref.remove_agent();
                    proof {
                        if counts_match(old(tiers)@, old(agents)@) {
                            assert forall|i: int| 0 <= i < tiers@.len() implies (
                            #[trigger] tiers@[i]).current_count == count_members(agents@, i) by {
                                lemma_count_members_update(ag_before, i, j as int, killed_a);
                                assert(tr_before[i].current_count == count_members(ag_before, i));
                            }
                        }
                    }
                    let ghost evs_before = events@;
                    let ev = Event::deorbit(timestamp, tier_id, target);
                    events.push(ev);
                    proof {
                        assert(events@.subrange(0, evs0.len() as int) =~= evs_before.subrange(
                            0,
                            evs0.len() as int,
                        ));
                        assert forall|k: int| evs0.len() <= k < events@.len() implies {
                            let e = #[trigger] events@[k];
                            e.timestamp == timestamp && e.event_type == EventType::Deorbit
                        } by {
                            if k < evs_before.len() {
                                assert(events@[k] == evs_before[k]);
                            } else {
                                assert(events@[k] == ev);
                            }
                        }
                    }
                    break ;
                }
                j = j + 1;
            }
            c = c + 1;
        }
        proof {
            if old(agents)@.len() == 0 {
                assert(final(agents)@ =~= old(agents)@);
                assert(final(tiers)@ =~= tr0);
                assert(final(events)@ =~= evs0);
            }
        }
    }
}

} // verus!
