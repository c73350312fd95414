//! The stability classifier: mean tier utilization to a named regime.

use vstd::prelude::*;

verus! {

/// Mean utilization below this (0.6) is Stable.
pub const STABLE_LIMIT: u64 = 600_000;

/// Mean utilization at or above this (0.85) is Critical.
pub const CRITICAL_LIMIT: u64 = 850_000;

#[derive(Clone, Copy, Debug, PartialEq, Eq, Structural)]
pub enum StabilityClass {
    Stable,
    Degrading,
    Critical,
}

pub open spec fn spec_classify(avg_util: int) -> StabilityClass {
    if avg_util < STABLE_LIMIT {
        StabilityClass::Stable
    } else if avg_util < CRITICAL_LIMIT {
        StabilityClass::Degrading
    } else {
        StabilityClass::Critical
    }
}

pub open spec fn spec_class_label(c: StabilityClass) -> Seq<char> {
    match c {
        StabilityClass::Stable => "Stable"@,
        StabilityClass::Degrading => "Degrading"@,
        StabilityClass::Critical => "Critical"@,
    }
}

/// Classify a mean utilization given in micro-units. Pure and stateless.
pub fn classify_stability(avg_util: u64) -> (c: StabilityClass)
    ensures
        c == spec_classify(avg_util as int),
{
    if avg_util < STABLE_LIMIT {
        StabilityClass::Stable
    } else if avg_util < CRITICAL_LIMIT {
        StabilityClass::Degrading
    } else {
        StabilityClass::Critical
    }
}

/// The display label of a stability class.
pub fn class_label(c: StabilityClass) -> (s: String)
    ensures
        s@ == spec_class_label(c),
{
    match c {
        StabilityClass::Stable => "Stable".to_owned(),
        StabilityClass::Degrading => "Degrading".to_owned(),
        StabilityClass::Critical => "Critical".to_owned(),
    }
}

/// The regime boundaries sit exactly at the limits: the lower limit itself
/// already classifies as Degrading, the upper one as Critical.
pub proof fn lemma_stability_boundaries()
    ensures
        spec_classify(STABLE_LIMIT as int) == StabilityClass::Degrading,
        spec_classify(STABLE_LIMIT - 1) == StabilityClass::Stable,
        spec_classify(CRITICAL_LIMIT as int) == StabilityClass::Critical,
        spec_classify(CRITICAL_LIMIT - 1) == StabilityClass::Degrading,
{
}

} // verus!
