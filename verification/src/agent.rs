//! A population member: health, age, compliance and tier membership.

use crate::fixed::SCALE;
use vstd::prelude::*;

verus! {

/// Health at or below this level (0.01 in micro-units) counts as dead.
pub const ALIVE_THRESHOLD: u64 = 10_000;

/// Health restored by one successful mitigation action (0.01 in micro-units).
pub const MITIGATION_HEAL: u64 = 10_000;

#[derive(Clone, Copy)]
pub struct Agent {
    pub id: u64,
    pub tier_id: usize,
    pub age: u64,
    pub compliance: bool,
    /// Health in micro-units, always within `[0, SCALE]`.
    pub health: u64,
    /// Set when a forced deorbit has already released this agent's slot in
    /// its tier, so that the cleanup sweep does not decrement the tier's
    /// count a second time.
    pub deorbited: bool,
}

/// How many agents of `s` currently occupy a slot of tier `tier_id`: the
/// members whose slot a forced deorbit has not already released. Tier
/// counts are kept equal to this, tick after tick.
pub open spec fn count_members(s: Seq<Agent>, tier_id: int) -> int
    decreases s.len(),
{
    if s.len() == 0 {
        0
    } else {
        (if s[0].tier_id == tier_id && !s[0].deorbited {
            1int
        } else {
            0int
        }) + count_members(s.skip(1), tier_id)
    }
}

pub proof fn lemma_count_members_bounds(s: Seq<Agent>, tier_id: int)
    ensures
        0 <= count_members(s, tier_id) <= s.len(),
    decreases s.len(),
{
    if s.len() > 0 {
        lemma_count_members_bounds(s.skip(1), tier_id);
    }
}

/// An occupying member bounds the count from below.
pub proof fn lemma_count_members_member(s: Seq<Agent>, tier_id: int, j: int)
    requires
        0 <= j < s.len(),
        s[j].tier_id == tier_id,
        !s[j].deorbited,
    ensures
        count_members(s, tier_id) >= 1,
    decreases j,
{
    lemma_count_members_bounds(s.skip(1), tier_id);
    if j > 0 {
        assert(s.skip(1)[j - 1] == s[j]);
        lemma_count_members_member(s.skip(1), tier_id, j - 1);
    }
}

pub proof fn lemma_count_members_push(s: Seq<Agent>, tier_id: int, a: Agent)
    ensures
        count_members(s.push(a), tier_id) == count_members(s, tier_id) + (if a.tier_id == tier_id
            && !a.deorbited {
            1int
        } else {
            0int
        }),
    decreases s.len(),
{
    assert(count_members(s.push(a), tier_id) == (if s.push(a)[0].tier_id == tier_id && !s.push(
        a,
    )[0].deorbited {
        1int
    } else {
        0int
    }) + count_members(s.push(a).skip(1), tier_id));
    if s.len() == 0 {
        assert(s.push(a)[0] == a);
        assert(s.push(a).skip(1) =~= Seq::<Agent>::empty());
    } else {
        assert(s.push(a)[0] == s[0]);
        assert(s.push(a).skip(1) =~= s.skip(1).push(a));
        lemma_count_members_push(s.skip(1), tier_id, a);
    }
}

pub proof fn lemma_count_members_update(s: Seq<Agent>, tier_id: int, j: int, a: Agent)
    requires
        0 <= j < s.len(),
    ensures
        count_members(s.update(j, a), tier_id) == count_members(s, tier_id) - (if s[j].tier_id
            == tier_id && !s[j].deorbited {
            1int
        } else {
            0int
        }) + (if a.tier_id == tier_id && !a.deorbited {
            1int
        } else {
            0int
        }),
    decreases j,
{
    let s2 = s.update(j, a);
    if j == 0 {
        assert(s2[0] == a);
        assert(s2.skip(1) =~= s.skip(1));
    } else {
        assert(s2[0] == s[0]);
        assert(s2.skip(1) =~= s.skip(1).update(j - 1, a));
        assert(s.skip(1)[j - 1] == s[j]);
        lemma_count_members_update(s.skip(1), tier_id, j - 1, a);
    }
}

/// The count reads only each agent's tier and deorbited mark, so passes
/// that change neither leave it unchanged.
pub proof fn lemma_count_members_pointwise(s1: Seq<Agent>, s2: Seq<Agent>, tier_id: int)
    requires
        s1.len() == s2.len(),
        forall|j: int|
            0 <= j < s1.len() ==> (#[trigger] s1[j]).tier_id == s2[j].tier_id && s1[j].deorbited
                == s2[j].deorbited,
    ensures
        count_members(s1, tier_id) == count_members(s2, tier_id),
    decreases s1.len(),
{
    if s1.len() > 0 {
        let t1 = s1.skip(1);
        let t2 = s2.skip(1);
        assert forall|j: int|
            0 <= j < t1.len() implies (#[trigger] t1[j]).tier_id == t2[j].tier_id && t1[j].deorbited
            == t2[j].deorbited by {
            assert(t1[j] == s1[j + 1]);
            assert(t2[j] == s2[j + 1]);
        }
        lemma_count_members_pointwise(t1, t2, tier_id);
    }
}

impl Agent {
    /// Health never exceeds one whole unit.
    pub open spec fn wf(self) -> bool {
        self.health <= SCALE
    }

    pub open spec fn spec_is_alive(self) -> bool {
        self.health > ALIVE_THRESHOLD
    }

    /// Everything but health and age: the parts of an agent that no
    /// per-tick transition may change.
    pub open spec fn same_identity(self, other: Agent) -> bool {
        self.id == other.id && self.tier_id == other.tier_id && self.compliance
            == other.compliance && self.deorbited == other.deorbited
    }

    pub fn new(id: u64, tier_id: usize, compliance: bool) -> (a: Agent)
        ensures
            a.id == id,
            a.tier_id == tier_id,
            a.age == 0,
            a.compliance == compliance,
            a.health == SCALE,
            a.deorbited == false,
            a.wf(),
    {
        Agent { id, tier_id, age: 0, compliance, health: SCALE, deorbited: false }
    }

    /// One tick of passive aging: the age advances by one and health decays
    /// by the fixed per-tick factor 0.9999.
    pub fn tick(&mut self)
        requires
            old(self).wf(),
            old(self).age < u64::MAX,
        ensures
            final(self).age == old(self).age + 1,
            final(self).health == old(self).health * 9999 / 10000,
            final(self).health <= old(self).health,
            old(self).same_identity(*final(self)),
            final(self).wf(),
    {
        self.age = self.age + 1;
        let h = self.health;
        proof {
            assert(h * 9999 / 10000 <= h) by (nonlinear_arith)
                requires
                    h >= 0,
            ;
        }
        self.health = h * 9999 / 10000;
    }

    pub fn is_alive(&self) -> (r: bool)
        ensures
            r == self.spec_is_alive(),
    {
        self.health > ALIVE_THRESHOLD
    }

    /// Damage lowers health by `damage`, clamped at zero.
    pub fn apply_damage(&mut self, damage: u64)
        requires
            old(self).wf(),
        ensures
            final(self).health == if old(self).health >= damage {
                old(self).health - damage
            } else {
                0
            },
            final(self).age == old(self).age,
            old(self).same_identity(*final(self)),
            final(self).wf(),
    {
        if self.health >= damage {
            self.health = self.health - damage;
        } else {
            self.health = 0;
        }
    }

    /// Mitigation raises health by `MITIGATION_HEAL`, capped at one whole unit.
    pub fn heal(&mut self)
        requires
            old(self).wf(),
        ensures
            final(self).health == if old(self).health + MITIGATION_HEAL <= SCALE {
                old(self).health + MITIGATION_HEAL
            } else {
                SCALE as int
            },
            final(self).age == old(self).age,
            old(self).same_identity(*final(self)),
            final(self).wf(),
    {
        if self.health + MITIGATION_HEAL <= SCALE {
            self.health = self.health + MITIGATION_HEAL;
        } else {
            self.health = SCALE;
        }
    }
}

} // verus!
