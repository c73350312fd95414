//! Per-tick stochastic dynamics: aging, congestion-driven collisions and
//! cascading failures.

use crate::agent::Agent;
use crate::event::Event;
use crate::event::EventType;
use crate::rng::SimulationRng;
use crate::tier::CapacityTier;
use vstd::prelude::*;

verus! {

/// Upper health damage bound of a collision draw (0.5, exclusive).
pub const COLLISION_DAMAGE_MAX: u64 = 500_000;

/// Lower health damage bound of a collision draw (0.1).
pub const COLLISION_DAMAGE_MIN: u64 = 100_000;

/// Upper health damage bound of a cascading-failure draw (0.8, exclusive).
pub const CASCADE_DAMAGE_MAX: u64 = 800_000;

/// Lower health damage bound of a cascading-failure draw (0.3).
pub const CASCADE_DAMAGE_MIN: u64 = 300_000;

/// Congestion severity above which a cascading failure can fire (0.8).
pub const CASCADE_SEVERITY_GATE: u64 = 800_000;

/// At most this many agents are struck by one cascading failure.
pub const CASCADE_MAX_AFFECTED: usize = 5;

/// The deterministic part of a tick alone: age advanced by one and health
/// decayed by exactly the per-tick factor of 0.9999.
pub open spec fn aged_exact(a0: Agent, a1: Agent) -> bool {
    a0.same_identity(a1) && a1.age == a0.age + 1 && a1.health == a0.health * 9999 / 10000
        && a1.wf()
}

/// How one agent may come out of a tick of dynamics: same identity, aged
/// by exactly one tick, health at most the decayed old health — the decay
/// is unconditional, and hazards can only lower health further.
pub open spec fn aged_weaker(a0: Agent, a1: Agent) -> bool {
    a0.same_identity(a1) && a1.age == a0.age + 1 && a1.health <= a0.health * 9999 / 10000
        && a1.wf()
}

/// How one agent may come out of a damage pass: same identity and age,
/// health never raised, still well-formed.
pub open spec fn damaged_weaker(a0: Agent, a1: Agent) -> bool {
    a0.same_identity(a1) && a1.age == a0.age && a1.health <= a0.health && a1.wf()
}

/// Event `e` records a collision hit on agent `j` of the struck tier: the
/// event names exactly that agent, and the agent lost exactly the logged
/// severity, clamped at zero.
pub open spec fn collision_hit(
    ag0: Seq<Agent>,
    ag1: Seq<Agent>,
    tier_id: usize,
    e: Event,
    j: int,
) -> bool {
    &&& 0 <= j < ag0.len()
&&& j < ag1.len()
&&& e.agent_ids@ == seq![ag0[j].id]
&&& ag0[j].tier_id == tier_id
&&& ag1[j].health == (if ag0[j].health >= e.severity {
    ag0[j].health - e.severity
} else {
    0int
})
}

/// One cascading-failure strike: same identity and age, health lowered by
/// a single damage amount within the cascade bounds, clamped at zero.
pub open spec fn cascade_struck(a0: Agent, a1: Agent) -> bool {
    &&& a0.same_identity(a1)
&&& a1.age == a0.age
&&& a1.wf()
&&& ((a1.health == 0 && a0.health < CASCADE_DAMAGE_MAX) || (a0.health - CASCADE_DAMAGE_MAX
    < a1.health && a1.health <= a0.health - CASCADE_DAMAGE_MIN))
}

/// The ids of the first `max` agents of tier `tier_id`, in population
/// order: the agents a cascading failure strikes.
pub open spec fn spec_leading_ids(agents: Seq<Agent>, tier_id: usize, max: int) -> Seq<u64>
    decreases agents.len(),
{
    if agents.len() == 0 || max <= 0 {
        Seq::empty()
    } else if agents[0].tier_id == tier_id {
        seq![agents[0].id] + spec_leading_ids(agents.skip(1), tier_id, max - 1)
    } else {
        spec_leading_ids(agents.skip(1), tier_id, max)
    }
}

/// The leading ids depend only on each agent's id and tier, so any pass
/// that changes nothing but health and age leaves them unchanged.
proof fn lemma_leading_ids_same(s1: Seq<Agent>, s2: Seq<Agent>, tier_id: usize, max: int)
    requires
        s1.len() == s2.len(),
        forall|j: int|
            0 <= j < s1.len() ==> (#[trigger] s1[j]).id == s2[j].id && s1[j].tier_id
                == s2[j].tier_id,
    ensures
        spec_leading_ids(s1, tier_id, max) == spec_leading_ids(s2, tier_id, max),
    decreases s1.len(),
{
    if s1.len() > 0 && max > 0 {
        let t1 = s1.skip(1);
        let t2 = s2.skip(1);
        assert forall|j: int|
            0 <= j < t1.len() implies (#[trigger] t1[j]).id == t2[j].id && t1[j].tier_id
            == t2[j].tier_id by {
            assert(t1[j] == s1[j + 1]);
            assert(t2[j] == s2[j + 1]);
        }
        if s1[0].tier_id == tier_id {
            lemma_leading_ids_same(t1, t2, tier_id, max - 1);
        } else {
            lemma_leading_ids_same(t1, t2, tier_id, max);
        }
    }
}

pub struct SystemDynamics;

impl SystemDynamics {
    pub fn new() -> SystemDynamics {
        SystemDynamics
    }

    /// One tick of dynamics, in fixed order: age every agent, then run the
    /// collision checks of every congested tier, then the cascading-failure
    /// checks of every tier. Tiers are read, never changed, here. On a
    /// quiet tick, with no congestion anywhere and no tier hot enough to
    /// cascade, the tick is exactly the deterministic aging pass and
    /// appends no event.
    pub fn update(
        &self,
        tiers: &Vec<CapacityTier>,
        agents: &mut Vec<Agent>,
        events: &mut Vec<Event>,
        timestamp: u64,
        rng: &mut SimulationRng,
    )
        requires
            forall|i: int|
                0 <= i < tiers@.len() ==> (#[trigger] tiers@[i]).wf() && tiers@[i].id == i,
            forall|j: int|
                0 <= j < old(agents)@.len() ==> (#[trigger] old(agents)@[j]).wf() && old(
                    agents,
                )@[j].age < u64::MAX && old(agents)@[j].tier_id < tiers@.len(),
        ensures
            final(agents)@.len() == old(agents)@.len(),
            forall|j: int|
                0 <= j < old(agents)@.len() ==> aged_weaker(
                    old(agents)@[j],
                    #[trigger] final(agents)@[j],
                ),
            final(events)@.len() >= old(events)@.len(),
            final(events)@.subrange(0, old(events)@.len() as int) == old(events)@,
            forall|k: int|
                old(events)@.len() <= k < final(events)@.len() ==> {
                    let e = #[trigger] final(events)@[k];
                    e.timestamp == timestamp && (e.event_type == EventType::Collision
                        || e.event_type == EventType::CascadingFailure)
                },
            ((forall|i: int| 0 <= i < tiers@.len() ==> !(#[trigger] tiers@[i]).spec_is_congested())
                && (forall|i: int|
                0 <= i < tiers@.len() ==> (#[trigger] tiers@[i]).spec_severity()
                    <= CASCADE_SEVERITY_GATE)) ==> final(events)@ == old(events)@ && (forall|j: int|
                0 <= j < old(agents)@.len() ==> aged_exact(
                    old(agents)@[j],
                    #[trigger] final(agents)@[j],
                )),
            (old(agents)@.len() == 0 && (forall|i: int|
                0 <= i < tiers@.len() ==> (#[trigger] tiers@[i]).current_count == 0)) ==> final(
                events
            )@ == old(events)@,
    {
        let ghost evs0 = events@;
        let mut i: usize = 0;
        while i < agents.len()
            invariant
                i <= agents@.len(),
                agents@.len() == old(agents)@.len(),
                forall|j: int|
                    0 <= j < old(agents)@.len() ==> (#[trigger] old(agents)@[j]).wf() && old(
                        agents,
                    )@[j].age < u64::MAX,
                forall|j: int|
                    i <= j < agents@.len() ==> #[trigger] agents@[j] == old(agents)@[j],
                forall|j: int|
                    0 <= j < i ==> aged_exact(old(agents)@[j], #[trigger] agents@[j]),
            decreases agents@.len() - i,
        {
            let mut a = agents[i];
            proof {
                assert(a == old(agents)@[i as int]);
            }
            a.tick();
            agents[i] = a;
            i = i + 1;
        }
        let ghost ag_aged = agents@;
        let ghost quiet = (forall|i: int|
            0 <= i < tiers@.len() ==> !(#[trigger] tiers@[i]).spec_is_congested()) && (forall|
            i: int,
        |
            0 <= i < tiers@.len() ==> (#[trigger] tiers@[i]).spec_severity()
                <= CASCADE_SEVERITY_GATE);
        let mut t: usize = 0;
        while t < tiers.len()
            invariant
                t <= tiers@.len(),
                forall|i: int|
                    0 <= i < tiers@.len() ==> (#[trigger] tiers@[i]).wf() && tiers@[i].id == i,
                agents@.len() == old(agents)@.len(),
                forall|j: int|
                    0 <= j < agents@.len() ==> aged_weaker(old(agents)@[j], #[trigger] agents@[j]),
                events@.len() >= evs0.len(),
                events@.subrange(0, evs0.len() as int) == evs0,
                forall|k: int|
                    evs0.len() <= k < events@.len() ==> {
                        let e = #[trigger] events@[k];
                        e.timestamp == timestamp && e.event_type == EventType::Collision
                    },
                agents@.len() == 0 ==> events@ == evs0,
                quiet == ((forall|i: int|
                    0 <= i < tiers@.len() ==> !(#[trigger] tiers@[i]).spec_is_congested()) && (
                forall|i: int|
                    0 <= i < tiers@.len() ==> (#[trigger] tiers@[i]).spec_severity()
                        <= CASCADE_SEVERITY_GATE)),
                quiet ==> agents@ == ag_aged && events@ == evs0,
            decreases tiers@.len() - t,
        {
            let congested = tiers[t].is_congested();
            if congested {
                proof {
                    if quiet {
                        assert(!tiers@[t as int].spec_is_congested());
                    }
                }
                let ghost ag_in = agents@;
                let ghost evs_in = events@;
                self.check_collisions(&tiers[t], agents, events, timestamp, rng);
                proof {
                    assert(events@.subrange(0, evs0.len() as int) =~= evs_in.subrange(
                        0,
                        evs0.len() as int,
                    ));
                    assert forall|j: int| 0 <= j < agents@.len() implies aged_weaker(
                        old(agents)@[j],
                        #[trigger] agents@[j],
                    ) by {
                        assert(damaged_weaker(ag_in[j], agents@[j]));
                        assert(aged_weaker(old(agents)@[j], ag_in[j]));
                    }
                    assert forall|k: int| evs0.len() <= k < events@.len() implies {
                        let e = #[trigger] events@[k];
                        e.timestamp == timestamp && e.event_type == EventType::Collision
                    } by {
                        if k < evs_in.len() {
                            assert(events@[k] == events@.subrange(0, evs_in.len() as int)[k]);
                            assert(events@[k] == evs_in[k]);
                        }
                    }
                }
            }
            t = t + 1;
        }
        let ghost ag_in = agents@;
        let ghost evs_in = events@;
        self.check_cascading_failures(tiers, agents, events, timestamp, rng);
        proof {
            assert(final(events)@.subrange(0, evs0.len() as int) =~= evs_in.subrange(
                0,
                evs0.len() as int,
            ));
            assert forall|j: int| 0 <= j < agents@.len() implies aged_weaker(
                old(agents)@[j],
                #[trigger] final(agents)@[j],
            ) by {
                assert(damaged_weaker(ag_in[j], final(agents)@[j]));
                assert(aged_weaker(old(agents)@[j], ag_in[j]));
            }
            assert forall|k: int| evs0.len() <= k < final(events)@.len() implies {
                let e = #[trigger] final(events)@[k];
                e.timestamp == timestamp && (e.event_type == EventType::Collision || e.event_type
                    == EventType::CascadingFailure)
            } by {
                if k < evs_in.len() {
                    assert(final(events)@[k] == final(events)@.subrange(0, evs_in.len() as int)[k]);
                    assert(final(events)@[k] == evs_in[k]);
                }
            }
            if quiet {
                assert(final(agents)@ =~= ag_aged);
                assert(final(events)@ =~= evs0);
            }
        }
    }

    /// Collision hazard for one congested tier: every agent of the tier is
    /// independently tested against the tier's effective failure rate,
    /// computed once before the loop; a hit draws a damage amount in
    /// `[0.1, 0.5)`, applies it to that one agent, and logs a Collision
    /// event naming exactly that agent with the damage as its severity.
    fn check_collisions(
        &self,
        tier: &CapacityTier,
        agents: &mut Vec<Agent>,
        events: &mut Vec<Event>,
        timestamp: u64,
        rng: &mut SimulationRng,
    )
        requires
            tier.wf(),
            forall|j: int| 0 <= j < old(agents)@.len() ==> (#[trigger] old(agents)@[j]).wf(),
        ensures
            final(agents)@.len() == old(agents)@.len(),
            forall|j: int|
                0 <= j < old(agents)@.len() ==> damaged_weaker(
                    old(agents)@[j],
                    #[trigger] final(agents)@[j],
                ),
            forall|j: int|
                0 <= j < old(agents)@.len() && (#[trigger] old(agents)@[j]).tier_id != tier.id
                    ==> final(agents)@[j] == old(agents)@[j],
            final(events)@.len() >= old(events)@.len(),
            final(events)@.subrange(0, old(events)@.len() as int) == old(events)@,
            forall|k: int|
                old(events)@.len() <= k < final(events)@.len() ==> {
                    let e = #[trigger] final(events)@[k];
                    &&& e.timestamp == timestamp
                &&& e.event_type == EventType::Collision
                &&& e.tier_id == tier.id
                &&& COLLISION_DAMAGE_MIN <= e.severity < COLLISION_DAMAGE_MAX
                &&& exists|j: int|
                    #[trigger] collision_hit(old(agents)@, final(agents)@, tier.id, e, j)
                },
            old(agents)@.len() == 0 ==> final(events)@ == old(events)@,
    {
        let ghost evs0 = events@;
        let failure_rate = tier.effective_failure_rate();
        let mut i: usize = 0;
        while i < agents.len()
            invariant
                i <= agents@.len(),
                agents@.len() == old(agents)@.len(),
                forall|j: int| 0 <= j < old(agents)@.len() ==> (#[trigger] old(agents)@[j]).wf(),
                forall|j: int|
                    i <= j < agents@.len() ==> #[trigger] agents@[j] == old(agents)@[j],
                forall|j: int|
                    0 <= j < i ==> damaged_weaker(old(agents)@[j], #[trigger] agents@[j]),
                forall|j: int|
                    0 <= j < agents@.len() && (#[trigger] old(agents)@[j]).tier_id != tier.id
                        ==> agents@[j] == old(agents)@[j],
                events@.len() >= evs0.len(),
                events@.subrange(0, evs0.len() as int) == evs0,
                forall|k: int|
                    evs0.len() <= k < events@.len() ==> {
                        let e = #[trigger] events@[k];
                        &&& e.timestamp == timestamp
                    &&& e.event_type == EventType::Collision
                    &&& e.tier_id == tier.id
                    &&& COLLISION_DAMAGE_MIN <= e.severity < COLLISION_DAMAGE_MAX
                    &&& exists|j: int|
                        j < i && #[trigger] collision_hit(old(agents)@, agents@, tier.id, e, j)
                    },
                agents@.len() == 0 ==> events@ == evs0,
            decreases agents@.len() - i,
        {
            if agents[i].tier_id == tier.id {
                if rng.gen_bool(failure_rate) {
                    let damage = rng.gen_range(COLLISION_DAMAGE_MIN, COLLISION_DAMAGE_MAX);
                    let ghost ag_before = agents@;
                    let mut a = agents[i];
                    proof {
                        assert(a == old(agents)@[i as int]);
                    }
                    a.apply_damage(damage);
                    let agent_id = a.id;
                    agents[i] = a;
                    let ghost evs_before = events@;
                    let mut ids: Vec<u64> = Vec::new();
                    ids.push(agent_id);
                    proof {
                        assert(ids@ =~= seq![old(agents)@[i as int].id]);
                    }
                    let ev = Event::collision(timestamp, tier.id, ids, damage);
                    events.push(ev);
                    proof {
                        assert(events@.subrange(0, evs0.len() as int) =~= evs_before.subrange(
                            0,
                            evs0.len() as int,
                        ));
                        assert forall|k: int| evs0.len() <= k < events@.len() implies {
                            let e = #[trigger] events@[k];
                            &&& e.timestamp == timestamp
                        &&& e.event_type == EventType::Collision
                        &&& e.tier_id == tier.id
                        &&& COLLISION_DAMAGE_MIN <= e.severity < COLLISION_DAMAGE_MAX
                        &&& exists|j: int|
                            j < i + 1 && #[trigger] collision_hit(
                                old(agents)@,
                                agents@,
                                tier.id,
                                e,
                                j,
                            )
                        } by {
                            if k < evs_before.len() {
                                assert(events@[k] == evs_before[k]);
                                let j = choose|j: int|
                                    j < i && #[trigger] collision_hit(
                                        old(agents)@,
                                        ag_before,
                                        tier.id,
                                        evs_before[k],
                                        j,
                                    );
                                assert(agents@[j] == ag_before[j]);
                                assert(collision_hit(old(agents)@, agents@, tier.id, events@[k], j));
                            } else {
                                assert(events@[k] == ev);
                                assert(collision_hit(
                                    old(agents)@,
                                    agents@,
                                    tier.id,
                                    ev,
                                    i as int,
                                ));
                            }
                        }
                    }
                }
            }
            i = i + 1;
        }
        proof {
            assert forall|k: int| evs0.len() <= k < final(events)@.len() implies {
                let e = #[trigger] final(events)@[k];
                exists|j: int| #[trigger] collision_hit(old(agents)@, final(agents)@, tier.id, e, j)
            } by {
                let j = choose|j: int|
                    j < agents@.len() && #[trigger] collision_hit(
                        old(agents)@,
                        final(agents)@,
                        tier.id,
                        final(events)@[k],
                        j,
                    );
                assert(collision_hit(old(agents)@, final(agents)@, tier.id, final(events)@[k], j));
            }
        }
    }

    /// Cascading failures: every tier whose congestion severity exceeds the
    /// gate makes a Bernoulli draw with probability `severity / 20`. On
    /// success the tier's leading agents (at most `CASCADE_MAX_AFFECTED`,
    /// in population order) each take an independent damage draw in
    /// `[0.3, 0.8)`, and one CascadingFailure event lists them all with
    /// the tier's severity value. Tiers that cannot fire are left
    /// untouched.
    fn check_cascading_failures(
        &self,
        tiers: &Vec<CapacityTier>,
        agents: &mut Vec<Agent>,
        events: &mut Vec<Event>,
        timestamp: u64,
        rng: &mut SimulationRng,
    )
        requires
            forall|i: int|
                0 <= i < tiers@.len() ==> (#[trigger] tiers@[i]).wf() && tiers@[i].id == i,
            forall|j: int|
                0 <= j < old(agents)@.len() ==> (#[trigger] old(agents)@[j]).wf() && old(
                    agents,
                )@[j].tier_id < tiers@.len(),
        ensures
            final(agents)@.len() == old(agents)@.len(),
            forall|j: int|
                0 <= j < old(agents)@.len() ==> {
                    let a0 = old(agents)@[j];
                    let a1 = #[trigger] final(agents)@[j];
                    a1 == a0 || (cascade_struck(a0, a1) && tiers@[a0.tier_id as int].spec_severity()
                        > CASCADE_SEVERITY_GATE)
                },
            final(events)@.len() >= old(events)@.len(),
            final(events)@.subrange(0, old(events)@.len() as int) == old(events)@,
            forall|k: int|
                old(events)@.len() <= k < final(events)@.len() ==> {
                    let e = #[trigger] final(events)@[k];
                    &&& e.timestamp == timestamp
                &&& e.event_type == EventType::CascadingFailure
                &&& e.tier_id < tiers@.len()
                &&& e.severity == tiers@[e.tier_id as int].spec_severity()
                &&& e.severity > CASCADE_SEVERITY_GATE
                &&& e.agent_ids@.len() <= CASCADE_MAX_AFFECTED
                &&& e.agent_ids@ == spec_leading_ids(
                    old(agents)@,
                    e.tier_id,
                    CASCADE_MAX_AFFECTED as int,
                )
                },
            (forall|i: int|
                0 <= i < tiers@.len() ==> (#[trigger] tiers@[i]).spec_severity()
                    <= CASCADE_SEVERITY_GATE) ==> final(events)@ == old(events)@ && final(agents)@
                == old(agents)@,
            (forall|i: int| 0 <= i < tiers@.len() ==> (#[trigger] tiers@[i]).current_count == 0)
                ==> final(events)@ == old(events)@,
    {
        let ghost evs0 = events@;
        let mut t: usize = 0;
        while t < tiers.len()
            invariant
                t <= tiers@.len(),
                forall|i: int|
                    0 <= i < tiers@.len() ==> (#[trigger] tiers@[i]).wf() && tiers@[i].id == i,
                agents@.len() == old(agents)@.len(),
                forall|j: int|
                    0 <= j < old(agents)@.len() ==> (#[trigger] old(agents)@[j]).wf() && old(
                        agents,
                    )@[j].tier_id < tiers@.len(),
                forall|j: int|
                    0 <= j < agents@.len() ==> {
                        let a0 = old(agents)@[j];
                        let a1 = #[trigger] agents@[j];
                        a1 == a0 || (cascade_struck(a0, a1) && tiers@[a0.tier_id as int].spec_severity()
                            > CASCADE_SEVERITY_GATE)
                    },
                forall|j: int|
                    0 <= j < agents@.len() && (#[trigger] old(agents)@[j]).tier_id >= t
                        ==> agents@[j] == old(agents)@[j],
                events@.len() >= evs0.len(),
                events@.subrange(0, evs0.len() as int) == evs0,
                forall|k: int|
                    evs0.len() <= k < events@.len() ==> {
                        let e = #[trigger] events@[k];
                        &&& e.timestamp == timestamp
                    &&& e.event_type == EventType::CascadingFailure
                    &&& e.tier_id < tiers@.len()
                    &&& e.severity == tiers@[e.tier_id as int].spec_severity()
                    &&& e.severity > CASCADE_SEVERITY_GATE
                    &&& e.agent_ids@.len() <= CASCADE_MAX_AFFECTED
                    &&& e.agent_ids@ == spec_leading_ids(
                        old(agents)@,
                        e.tier_id,
                        CASCADE_MAX_AFFECTED as int,
                    )
                    },
                (forall|i: int|
                    0 <= i < tiers@.len() ==> (#[trigger] tiers@[i]).spec_severity()
                        <= CASCADE_SEVERITY_GATE) ==> events@ == evs0 && agents@ == old(agents)@,
                (forall|i: int|
                    0 <= i < tiers@.len() ==> (#[trigger] tiers@[i]).current_count == 0) ==> events@
                    == evs0,
            decreases tiers@.len() - t,
        {
            let severity = tiers[t].congestion_severity();
            proof {
                if tiers@[t as int].current_count == 0 {
                    assert(tiers@[t as int].spec_utilization() == 0);
                    assert(severity == 0);
                }
            }
            if severity > CASCADE_SEVERITY_GATE {
                if rng.gen_bool(severity / 20) {
                    let tier_id = tiers[t].id;
                    let ghost ag_t0 = agents@;
                    let mut affected_idx: Vec<usize> = Vec::new();
                    let mut affected_ids: Vec<u64> = Vec::new();
                    let mut j: usize = 0;
                    proof {
                        assert(agents@.skip(0) =~= agents@);
                        assert(affected_ids@ + spec_leading_ids(
                            agents@,
                            tier_id,
                            CASCADE_MAX_AFFECTED as int,
                        ) =~= spec_leading_ids(agents@, tier_id, CASCADE_MAX_AFFECTED as int));
                    }
                    while j < agents.len() && affected_idx.len() < CASCADE_MAX_AFFECTED
                        invariant
                            j <= agents@.len(),
                            agents@ == ag_t0,
                            affected_ids@.len() == affected_idx@.len(),
                            affected_idx@.len() <= CASCADE_MAX_AFFECTED,
                            forall|m: int|
                                0 <= m < affected_idx@.len() ==> #[trigger] affected_idx@[m] < j
                                    && affected_idx@[m] < agents@.len(),
                            forall|m1: int, m2: int|
                                0 <= m1 < m2 < affected_idx@.len() ==> #[trigger] affected_idx@[m1]
                                    < #[trigger] affected_idx@[m2],
                            forall|m: int|
                                0 <= m < affected_idx@.len() ==> (#[trigger] agents@[affected_idx@[m] as int]).tier_id
                                    == tier_id,
                            spec_leading_ids(agents@, tier_id, CASCADE_MAX_AFFECTED as int)
                                == affected_ids@ + spec_leading_ids(
                                agents@.skip(j as int),
                                tier_id,
                                CASCADE_MAX_AFFECTED - affected_ids@.len(),
                            ),
                        decreases agents@.len() - j,
                    {
                        proof {
                            assert(agents@.skip(j as int)[0] == agents@[j as int]);
                            assert(agents@.skip(j as int).skip(1) =~= agents@.skip(j + 1));
                        }
                        if agents[j].tier_id == tier_id {
                            let ghost ids_before = affected_ids@;
                            affected_idx.push(j);
                            affected_ids.push(agents[j].id);
                            proof {
                                assert(affected_ids@ =~= ids_before + seq![
                                    agents@[j as int].id,
                                ]);
                                assert(ids_before + (seq![agents@[j as int].id]
                                    + spec_leading_ids(
                                    agents@.skip(j + 1),
                                    tier_id,
                                    CASCADE_MAX_AFFECTED - ids_before.len() - 1,
                                )) =~= affected_ids@ + spec_leading_ids(
                                    agents@.skip(j + 1),
                                    tier_id,
                                    CASCADE_MAX_AFFECTED - affected_ids@.len(),
                                ));
                            }
                        }
                        j = j + 1;
                    }
                    proof {
                        if affected_ids@.len() >= CASCADE_MAX_AFFECTED {
                            assert(spec_leading_ids(
                                agents@.skip(j as int),
                                tier_id,
                                CASCADE_MAX_AFFECTED - affected_ids@.len(),
                            ) =~= Seq::<u64>::empty());
                        } else {
                            assert(j >= agents@.len());
                            assert(agents@.skip(j as int) =~= Seq::<Agent>::empty());
                            assert(spec_leading_ids(
                                agents@.skip(j as int),
                                tier_id,
                                CASCADE_MAX_AFFECTED - affected_ids@.len(),
                            ) =~= Seq::<u64>::empty());
                        }
                        assert(affected_ids@ + Seq::<u64>::empty() =~= affected_ids@);
                        assert(affected_ids@ == spec_leading_ids(
                            ag_t0,
                            tier_id,
                            CASCADE_MAX_AFFECTED as int,
                        ));
                    }
                    let mut m: usize = 0;
                    let ghost ag_mid = agents@;
                    proof {
                        assert forall|j2: int| 0 <= j2 < ag_mid.len() implies (
                        #[trigger] ag_mid[j2]).wf() by {
                            assert(old(agents)@[j2].wf());
                        }
                    }
                    while m < affected_idx.len()
                        invariant
                            m <= affected_idx@.len(),
                            agents@.len() == ag_mid.len(),
                            forall|j2: int| 0 <= j2 < ag_mid.len() ==> (#[trigger] ag_mid[j2]).wf(),
                            forall|x: int|
                                0 <= x < affected_idx@.len() ==> #[trigger] affected_idx@[x]
                                    < agents@.len(),
                            forall|x1: int, x2: int|
                                0 <= x1 < x2 < affected_idx@.len() ==> #[trigger] affected_idx@[x1]
                                    < #[trigger] affected_idx@[x2],
                            forall|j2: int|
                                0 <= j2 < agents@.len() && (forall|x: int|
                                    0 <= x < m ==> #[trigger] affected_idx@[x] != j2)
                                    ==> #[trigger] agents@[j2] == ag_mid[j2],
                            forall|x: int|
                                0 <= x < m ==> cascade_struck(
                                    ag_mid[affected_idx@[x] as int],
                                    #[trigger] agents@[affected_idx@[x] as int],
                                ),
                        decreases affected_idx@.len() - m,
                    {
                        let damage = rng.gen_range(CASCADE_DAMAGE_MIN, CASCADE_DAMAGE_MAX);
                        let idx = affected_idx[m];
                        proof {
                            assert forall|x: int| 0 <= x < m implies #[trigger] affected_idx@[x]
                                != idx as int by {
                                assert(affected_idx@[x] < affected_idx@[m as int]);
                            }
                            assert(agents@[idx as int] == ag_mid[idx as int]);
                        }
                        let mut a = agents[idx];
                        a.apply_damage(damage);
                        agents[idx] = a;
                        proof {
                            assert(cascade_struck(ag_mid[idx as int], agents@[idx as int]));
                        }
                        m = m + 1;
                    }
                    proof {
                        assert forall|j2: int| 0 <= j2 < agents@.len() implies {
                            let a0 = old(agents)@[j2];
                            let a1 = #[trigger] agents@[j2];
                            a1 == a0 || (cascade_struck(a0, a1)
                                && tiers@[a0.tier_id as int].spec_severity()
                                > CASCADE_SEVERITY_GATE)
                        } by {
                            if exists|x: int|
                                0 <= x < affected_idx@.len() && #[trigger] affected_idx@[x] == j2 {
                                let x = choose|x: int|
                                    0 <= x < affected_idx@.len() && #[trigger] affected_idx@[x]
                                        == j2;
                                assert(cascade_struck(ag_mid[j2], agents@[j2]));
                                assert(ag_mid[j2].tier_id == tier_id);
                                assert(ag_mid[j2] == old(agents)@[j2]);
                            } else {
                                assert(agents@[j2] == ag_mid[j2]);
                            }
                        }
                        assert forall|j2: int|
                            0 <= j2 < agents@.len() && (#[trigger] old(agents)@[j2]).tier_id >= t
                                + 1 implies agents@[j2] == old(agents)@[j2] by {
                            if exists|x: int|
                                0 <= x < affected_idx@.len() && #[trigger] affected_idx@[x] == j2 {
                                assert(ag_mid[j2].tier_id == tier_id);
                            } else {
                                assert(agents@[j2] == ag_mid[j2]);
                            }
                        }
                    }
                    let ghost evs_before = events@;
                    let ev = Event::cascading_failure(timestamp, tier_id, affected_ids, severity);
                    events.push(ev);
                    proof {
                        assert(events@.subrange(0, evs0.len() as int) =~= evs_before.subrange(
                            0,
                            evs0.len() as int,
                        ));
                        assert forall|j2: int|
                            0 <= j2 < ag_t0.len() implies (#[trigger] ag_t0[j2]).id == old(
                            agents,
                        )@[j2].id && ag_t0[j2].tier_id == old(agents)@[j2].tier_id by {}
                        lemma_leading_ids_same(
                            ag_t0,
                            old(agents)@,
                            tier_id,
                            CASCADE_MAX_AFFECTED as int,
                        );
                        assert forall|k: int| evs0.len() <= k < events@.len() implies {
                            let e = #[trigger] events@[k];
                            &&& e.timestamp == timestamp
                        &&& e.event_type == EventType::CascadingFailure
                        &&& e.tier_id < tiers@.len()
                        &&& e.severity == tiers@[e.tier_id as int].spec_severity()
                        &&& e.severity > CASCADE_SEVERITY_GATE
                        &&& e.agent_ids@.len() <= CASCADE_MAX_AFFECTED
                        &&& e.agent_ids@ == spec_leading_ids(
                            old(agents)@,
                            e.tier_id,
                            CASCADE_MAX_AFFECTED as int,
                        )
                        } by {
                            if k < evs_before.len() {
                                assert(events@[k] == evs_before[k]);
                            } else {
                                assert(events@[k] == ev);
                            }
                        }
                    }
                }
            }
            t = t + 1;
        }
        proof {
            if forall|i: int|
                0 <= i < tiers@.len() ==> (#[trigger] tiers@[i]).spec_severity()
                    <= CASCADE_SEVERITY_GATE {
                assert(final(events)@ =~= evs0);
                assert(final(agents)@ =~= old(agents)@);
            }
        }
    }
}

} // verus!
