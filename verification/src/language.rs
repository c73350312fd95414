//! The report narrator: numeric state to prose. The narrative is an
//! intentionally lossy summary of the numbers it accompanies — averaging
//! can mask a single severely congested tier — and the exact contracts
//! here pin down precisely that lossy wording, not the ground truth.

use crate::config::ReportingConfig;
use crate::fixed::COUNT_LIMIT;
use crate::fixed::SCALE;
use crate::stability::StabilityClass;
use crate::template::TemplateBank;
use crate::template::spec_critical_opening;
use crate::template::spec_degrading_opening;
use crate::template::spec_stable_opening;
use crate::text::append_dec;
use crate::text::append_percent1;
use crate::text::spec_dec;
use crate::text::spec_percent1;
use crate::tier::CapacityTier;
use vstd::prelude::*;
use vstd::string::StringExecFns;

verus! {

/// Average risk above this (0.01) switches the event summary to the
/// elevated-risk hedge when hedging is enabled.
pub const RISK_HEDGE_LIMIT: u64 = 10_000;

/// Recent-event counts at or above this use the increased-activity wording.
pub const EVENT_MANY_LIMIT: usize = 5;

/// Utilization above this (0.7) in a non-critical closing notes the debris
/// mitigation protocols.
pub const CLOSING_UTIL_LIMIT: u64 = 700_000;

pub open spec fn spec_opening(class: StabilityClass, util: int, hedging: bool) -> Seq<char> {
    match class {
        StabilityClass::Stable => spec_stable_opening(util, hedging),
        StabilityClass::Degrading => spec_degrading_opening(util, hedging),
        StabilityClass::Critical => spec_critical_opening(util, hedging),
    }
}

/// How many tiers are congested.
pub open spec fn spec_congested_count(tiers: Seq<CapacityTier>) -> int
    decreases tiers.len(),
{
    if tiers.len() == 0 {
        0
    } else {
        spec_congested_count(tiers.drop_last()) + if tiers.last().spec_is_congested() {
            1int
        } else {
            0int
        }
    }
}

/// The index of the first congested tier (meaningful only when one exists).
pub open spec fn spec_first_congested(tiers: Seq<CapacityTier>) -> int
    decreases tiers.len(),
{
    if tiers.len() == 0 {
        0
    } else if tiers[0].spec_is_congested() {
        0
    } else {
        1 + spec_first_congested(tiers.skip(1))
    }
}

pub proof fn lemma_first_congested(s: Seq<CapacityTier>, i: int)
    requires
        0 <= i < s.len(),
        s[i].spec_is_congested(),
        forall|m: int| 0 <= m < i ==> !(#[trigger] s[m]).spec_is_congested(),
    ensures
        spec_first_congested(s) == i,
    decreases i,
{
    if i > 0 {
        assert(!s[0].spec_is_congested());
        let s1 = s.skip(1);
        assert(s1[i - 1] == s[i]);
        assert forall|m: int| 0 <= m < i - 1 implies !(#[trigger] s1[m]).spec_is_congested() by {
            assert(s1[m] == s[m + 1]);
        }
        lemma_first_congested(s1, i - 1);
    }
}

/// The tier summary sentence: "no congestion" wording at zero congested
/// tiers; the single tier's name and percentage at exactly one; only the
/// count once more than one is congested.
pub open spec fn spec_tier_summary(tiers: Seq<CapacityTier>) -> Seq<char> {
    let c = spec_congested_count(tiers);
    if c == 0 {
        "All capacity tiers operating within normal parameters."@
    } else if c == 1 {
        let t = tiers[spec_first_congested(tiers)];
        t.name@ + " tier experiencing elevated utilization at "@ + spec_percent1(
            t.spec_utilization(),
        ) + "% of capacity."@
    } else {
        "Multiple capacity tiers ("@ + spec_dec(c) + ") showing congestion patterns."@
    }
}

/// The event summary sentence: the count bucketed into none, a few and
/// many, with a hedge clause set by the hedging flag and the average risk.
pub open spec fn spec_event_summary(recent: int, risk: int, hedging: bool) -> Seq<char> {
    let hedge = if hedging && risk > RISK_HEDGE_LIMIT {
        "though elevated risk persists"@
    } else {
        "with risk levels stable"@
    };
    if recent == 0 {
        "No significant conjunction events detected, "@ + hedge + "."@
    } else if recent < EVENT_MANY_LIMIT {
        "Limited conjunction activity observed ("@ + spec_dec(recent) + " events), "@ + hedge
            + "."@
    } else {
        "Increased conjunction activity detected ("@ + spec_dec(recent) + " events), "@ + hedge
            + "."@
    }
}

/// The closing sentence, set by the stability class, the confidence
/// modulation flag and the average utilization.
pub open spec fn spec_closing(class: StabilityClass, util: int, modulation: bool) -> Seq<char> {
    if class == StabilityClass::Critical {
        if modulation {
            "Mitigation protocols engaged. Continued monitoring advised."@
        } else {
            "Mitigation protocols active."@
        }
    } else if util > CLOSING_UTIL_LIMIT {
        "Debris mitigation protocols remain nominal."@
    } else {
        "All systems nominal."@
    }
}

/// The full narrative: the four sentences joined by single spaces.
pub open spec fn spec_narrative(
    tiers: Seq<CapacityTier>,
    avg_util: int,
    avg_risk: int,
    recent: int,
    class: StabilityClass,
    hedging: bool,
    modulation: bool,
) -> Seq<char> {
    spec_opening(class, avg_util, hedging) + " "@ + spec_tier_summary(tiers) + " "@
        + spec_event_summary(recent, avg_risk, hedging) + " "@ + spec_closing(
        class,
        avg_util,
        modulation,
    )
}

pub struct LanguageGenerator {
    pub config: ReportingConfig,
    pub templates: TemplateBank,
}

impl LanguageGenerator {
    pub fn new(config: ReportingConfig) -> (g: LanguageGenerator)
        ensures
            g.config == config,
    {
        LanguageGenerator { config, templates: TemplateBank::new() }
    }

    /// Generate the narrative for one report. A pure function of the tier
    /// snapshot, the two averages, the recent-event count, the stability
    /// class and the reporting flags.
    pub fn generate_report(
        &self,
        tiers: &Vec<CapacityTier>,
        avg_utilization: u64,
        avg_risk: u64,
        recent_events: usize,
        stability_class: StabilityClass,
    ) -> (r: String)
        requires
            forall|i: int| 0 <= i < tiers@.len() ==> (#[trigger] tiers@[i]).wf(),
            avg_utilization <= COUNT_LIMIT * SCALE,
        ensures
            r@ == spec_narrative(
                tiers@,
                avg_utilization as int,
                avg_risk as int,
                recent_events as int,
                stability_class,
                self.config.hedging_enabled,
                self.config.confidence_modulation,
            ),
    {
        let mut s = self.generate_opening(stability_class, avg_utilization);
        s.append(" ");
        let tier_part = self.generate_tier_summary(tiers);
        s.append(tier_part.as_str());
        s.append(" ");
        let event_part = self.generate_event_summary(recent_events, avg_risk);
        s.append(event_part.as_str());
        s.append(" ");
        let closing = self.generate_closing(stability_class, avg_utilization);
        s.append(closing.as_str());
        proof {
            assert(s@ =~= spec_narrative(
                tiers@,
                avg_utilization as int,
                avg_risk as int,
                recent_events as int,
                stability_class,
                self.config.hedging_enabled,
                self.config.confidence_modulation,
            ));
        }
        s
    }

    fn generate_opening(&self, stability_class: StabilityClass, utilization: u64) -> (r: String)
        requires
            utilization <= COUNT_LIMIT * SCALE,
        ensures
            r@ == spec_opening(stability_class, utilization as int, self.config.hedging_enabled),
    {
        match stability_class {
            StabilityClass::Stable => self.templates.stable_opening(
                utilization,
                self.config.hedging_enabled,
            ),
            StabilityClass::Degrading => self.templates.degrading_opening(
                utilization,
                self.config.hedging_enabled,
            ),
            StabilityClass::Critical => self.templates.critical_opening(
                utilization,
                self.config.hedging_enabled,
            ),
        }
    }

    fn generate_tier_summary(&self, tiers: &Vec<CapacityTier>) -> (r: String)
        requires
            forall|i: int| 0 <= i < tiers@.len() ==> (#[trigger] tiers@[i]).wf(),
        ensures
            r@ == spec_tier_summary(tiers@),
    {
        let mut congested_count: usize = 0;
        let mut i: usize = 0;
        proof {
            assert(tiers@.subrange(0, 0) =~= Seq::<CapacityTier>::empty());
        }
        while i < tiers.len()
            invariant
                i <= tiers@.len(),
                forall|k: int| 0 <= k < tiers@.len() ==> (#[trigger] tiers@[k]).wf(),
                0 <= congested_count <= i,
                congested_count == spec_congested_count(tiers@.subrange(0, i as int)),
            decreases tiers@.len() - i,
        {
            proof {
                assert(tiers@.subrange(0, i + 1).drop_last() =~= tiers@.subrange(0, i as int));
                assert(tiers@.subrange(0, i + 1).last() == tiers@[i as int]);
            }
            if tiers[i].is_congested() {
                congested_count = congested_count + 1;
            }
            i = i + 1;
        }
        proof {
            assert(tiers@.subrange(0, tiers@.len() as int) =~= tiers@);
        }
        if congested_count == 0 {
            "All capacity tiers operating within normal parameters.".to_owned()
        } else if congested_count == 1 {
            let mut j: usize = 0;
            while j < tiers.len()
                invariant
                    j <= tiers@.len(),
                    forall|k: int| 0 <= k < tiers@.len() ==> (#[trigger] tiers@[k]).wf(),
                    spec_congested_count(tiers@) == 1,
                    forall|m: int| 0 <= m < j ==> !(#[trigger] tiers@[m]).spec_is_congested(),
                decreases tiers@.len() - j,
            {
                if tiers[j].is_congested() {
                    proof {
                        lemma_first_congested(tiers@, j as int);
                    }
                    let mut s = String::new();
                    s.append(tiers[j].name.as_str());
                    s.append(" tier experiencing elevated utilization at ");
                    let util = tiers[j].utilization();
                    append_percent1(&mut s, util);
                    s.append("% of capacity.");
                    proof {
                        assert(s@ =~= spec_tier_summary(tiers@));
                    }
                    return s;
                }
                j = j + 1;
            }
            proof {
                lemma_congested_count_none(tiers@);
                assert(false);
            }
            String::new()
        } else {
            let mut s = String::new();
            s.append("Multiple capacity tiers (");
            append_dec(&mut s, congested_count as u64);
            s.append(") showing congestion patterns.");
            proof {
                assert(s@ =~= spec_tier_summary(tiers@));
            }
            s
        }
    }

    fn generate_event_summary(&self, recent_events: usize, risk: u64) -> (r: String)
        ensures
            r@ == spec_event_summary(
                recent_events as int,
                risk as int,
                self.config.hedging_enabled,
            ),
    {
        let hedge: &str = if self.config.hedging_enabled && risk > RISK_HEDGE_LIMIT {
            "though elevated risk persists"
        } else {
            "with risk levels stable"
        };
        let mut s = String::new();
        if recent_events == 0 {
            s.append("No significant conjunction events detected, ");
            s.append(hedge);
            s.append(".");
        } else if recent_events < EVENT_MANY_LIMIT {
            s.append("Limited conjunction activity observed (");
            append_dec(&mut s, recent_events as u64);
            s.append(" events), ");
            s.append(hedge);
            s.append(".");
        } else {
            s.append("Increased conjunction activity detected (");
            append_dec(&mut s, recent_events as u64);
            s.append(" events), ");
            s.append(hedge);
            s.append(".");
        }
        proof {
            assert(s@ =~= spec_event_summary(
                recent_events as int,
                risk as int,
                self.config.hedging_enabled,
            ));
        }
        s
    }

    fn generate_closing(&self, stability_class: StabilityClass, utilization: u64) -> (r: String)
        ensures
            r@ == spec_closing(
                stability_class,
                utilization as int,
                self.config.confidence_modulation,
            ),
    {
        if stability_class == StabilityClass::Critical {
            if self.config.confidence_modulation {
                "Mitigation protocols engaged. Continued monitoring advised.".to_owned()
            } else {
                "Mitigation protocols active.".to_owned()
            }
        } else if utilization > CLOSING_UTIL_LIMIT {
            "Debris mitigation protocols remain nominal.".to_owned()
        } else {
            "All systems nominal.".to_owned()
        }
    }
}

/// A sequence with no congested tier has a congested count of zero.
pub proof fn lemma_congested_count_none(s: Seq<CapacityTier>)
    requires
        forall|m: int| 0 <= m < s.len() ==> !(#[trigger] s[m]).spec_is_congested(),
    ensures
        spec_congested_count(s) == 0,
    decreases s.len(),
{
    if s.len() > 0 {
        lemma_congested_count_none(s.drop_last());
    }
}

} // verus!
