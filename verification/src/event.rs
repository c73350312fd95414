//! Append-only event records: launches, collisions, deorbits and
//! cascading failures.

use vstd::prelude::*;

verus! {

#[derive(Clone, Copy, Debug, PartialEq, Eq, Structural)]
pub enum EventType {
    Launch,
    Collision,
    Deorbit,
    CascadingFailure,
}

pub struct Event {
    pub timestamp: u64,
    pub event_type: EventType,
    pub tier_id: usize,
    pub agent_ids: Vec<u64>,
    /// Zero for launches and deorbits; the damage amount for a collision;
    /// the tier's congestion severity for a cascading failure (micro-units).
    pub severity: u64,
}

impl Event {
    pub fn launch(timestamp: u64, tier_id: usize, agent_id: u64) -> (e: Event)
        ensures
            e.timestamp == timestamp,
            e.event_type == EventType::Launch,
            e.tier_id == tier_id,
            e.agent_ids@ == seq![agent_id],
            e.severity == 0,
    {
        let mut ids: Vec<u64> = Vec::new();
        ids.push(agent_id);
        proof {
            assert(ids@ =~= seq![agent_id]);
        }
        Event { timestamp, event_type: EventType::Launch, tier_id, agent_ids: ids, severity: 0 }
    }

    pub fn collision(timestamp: u64, tier_id: usize, agent_ids: Vec<u64>, severity: u64) -> (e:
        Event)
        ensures
            e.timestamp == timestamp,
            e.event_type == EventType::Collision,
            e.tier_id == tier_id,
            e.agent_ids == agent_ids,
            e.severity == severity,
    {
        Event { timestamp, event_type: EventType::Collision, tier_id, agent_ids, severity }
    }

    pub fn deorbit(timestamp: u64, tier_id: usize, agent_id: u64) -> (e: Event)
        ensures
            e.timestamp == timestamp,
            e.event_type == EventType::Deorbit,
            e.tier_id == tier_id,
            e.agent_ids@ == seq![agent_id],
            e.severity == 0,
    {
        let mut ids: Vec<u64> = Vec::new();
        ids.push(agent_id);
        proof {
            assert(ids@ =~= seq![agent_id]);
        }
        Event { timestamp, event_type: EventType::Deorbit, tier_id, agent_ids: ids, severity: 0 }
    }

    pub fn cascading_failure(timestamp: u64, tier_id: usize, agent_ids: Vec<u64>, severity: u64)
        -> (e: Event)
        ensures
            e.timestamp == timestamp,
            e.event_type == EventType::CascadingFailure,
            e.tier_id == tier_id,
            e.agent_ids == agent_ids,
            e.severity == severity,
    {
        Event { timestamp, event_type: EventType::CascadingFailure, tier_id, agent_ids, severity }
    }
}

/// How many events in `s` have kind `k`.
pub open spec fn count_kind(s: Seq<Event>, k: EventType) -> int
    decreases s.len(),
{
    if s.len() == 0 {
        0
    } else {
        count_kind(s.drop_last(), k) + if s.last().event_type == k {
            1int
        } else {
            0int
        }
    }
}

/// How many events in `s` have a timestamp within `[lo, hi]`.
pub open spec fn count_in_window(s: Seq<Event>, lo: int, hi: int) -> int
    decreases s.len(),
{
    if s.len() == 0 {
        0
    } else {
        count_in_window(s.drop_last(), lo, hi) + if lo <= s.last().timestamp <= hi {
            1int
        } else {
            0int
        }
    }
}

/// Extending a log only with events of other kinds leaves a kind's count
/// unchanged.
pub proof fn lemma_count_kind_extend(s1: Seq<Event>, s2: Seq<Event>, k: EventType)
    requires
        s1.len() <= s2.len(),
        s2.subrange(0, s1.len() as int) == s1,
        forall|i: int| s1.len() <= i < s2.len() ==> (#[trigger] s2[i]).event_type != k,
    ensures
        count_kind(s2, k) == count_kind(s1, k),
    decreases s2.len() - s1.len(),
{
    if s2.len() > s1.len() {
        let s2p = s2.drop_last();
        assert(s2p.subrange(0, s1.len() as int) =~= s1);
        assert(s2.last().event_type != k);
        lemma_count_kind_extend(s1, s2p, k);
    } else {
        assert(s2 =~= s1);
    }
}

/// Extending a log only with events stamped after the window's end leaves
/// the window's count unchanged.
pub proof fn lemma_count_window_extend(s1: Seq<Event>, s2: Seq<Event>, lo: int, hi: int)
    requires
        s1.len() <= s2.len(),
        s2.subrange(0, s1.len() as int) == s1,
        forall|k: int| s1.len() <= k < s2.len() ==> (#[trigger] s2[k]).timestamp > hi,
    ensures
        count_in_window(s2, lo, hi) == count_in_window(s1, lo, hi),
    decreases s2.len() - s1.len(),
{
    if s2.len() > s1.len() {
        let s2p = s2.drop_last();
        assert(s2p.subrange(0, s1.len() as int) =~= s1);
        assert(s2.last().timestamp > hi);
        lemma_count_window_extend(s1, s2p, lo, hi);
    } else {
        assert(s2 =~= s1);
    }
}

/// Count the events of kind `k` held in `events`.
pub fn count_events_of_kind(events: &Vec<Event>, k: EventType) -> (n: usize)
    ensures
        n == count_kind(events@, k),
{
    let mut n: usize = 0;
    let mut i: usize = 0;
    proof {
        assert(events@.subrange(0, 0) =~= Seq::<Event>::empty());
    }
    while i < events.len()
        invariant
            i <= events.len(),
            0 <= n <= i,
            n == count_kind(events@.subrange(0, i as int), k),
        decreases events.len() - i,
    {
        proof {
            assert(events@.subrange(0, i + 1).drop_last() =~= events@.subrange(0, i as int));
            assert(events@.subrange(0, i + 1).last() == events@[i as int]);
        }
        if events[i].event_type == k {
            n = n + 1;
        }
        i = i + 1;
    }
    proof {
        assert(events@.subrange(0, events@.len() as int) =~= events@);
    }
    n
}

/// Count the events of `events` whose timestamp lies within `[lo, hi]`.
pub fn count_events_in_window(events: &Vec<Event>, lo: u64, hi: u64) -> (n: usize)
    ensures
        n == count_in_window(events@, lo as int, hi as int),
{
    let mut n: usize = 0;
    let mut i: usize = 0;
    proof {
        assert(events@.subrange(0, 0) =~= Seq::<Event>::empty());
    }
    while i < events.len()
        invariant
            i <= events.len(),
            0 <= n <= i,
            n == count_in_window(events@.subrange(0, i as int), lo as int, hi as int),
        decreases events.len() - i,
    {
        proof {
            assert(events@.subrange(0, i + 1).drop_last() =~= events@.subrange(0, i as int));
            assert(events@.subrange(0, i + 1).last() == events@[i as int]);
        }
        if lo <= events[i].timestamp && events[i].timestamp <= hi {
            n = n + 1;
        }
        i = i + 1;
    }
    proof {
        assert(events@.subrange(0, events@.len() as int) =~= events@);
    }
    n
}

} // verus!
