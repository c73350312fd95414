//! Fixed-point arithmetic for the simulation.
//!
//! Every real-valued quantity of the model (health, probabilities, rates,
//! utilization, severity) is carried as an unsigned integer in micro-units:
//! the value 1.0 is `SCALE`. All derived metrics are exact integer
//! computations (with flooring division), so every formula can be stated
//! and proved precisely.

use vstd::prelude::*;

verus! {

/// One whole unit (1.0) in micro-units.
pub const SCALE: u64 = 1_000_000;

/// Upper bound on a tier's population count; keeps `count * SCALE` within `u64`.
pub const COUNT_LIMIT: u64 = 4_294_967_296;

/// Saturate an unbounded integer into the `u64` range.
pub open spec fn cap_u64(x: int) -> int {
    if x > u64::MAX {
        u64::MAX as int
    } else {
        x
    }
}

/// Utilization of a pool in micro-units: `count / cap` scaled by `SCALE`.
pub open spec fn spec_utilization(count: int, cap: int) -> int
    recommends
        cap >= 1,
{
    count * (SCALE as int) / cap
}

/// Congestion severity in micro-units: zero at or below the threshold,
/// then a linear ramp that reaches `SCALE` at full utilization.
/// A threshold of one whole unit leaves no room for a ramp; any overshoot
/// then counts as full severity.
pub open spec fn spec_severity(util: int, thr: int) -> int {
    if util <= thr {
        0
    } else if thr < SCALE {
        cap_u64((util - thr) * (SCALE as int) / (SCALE as int - thr))
    } else {
        SCALE as int
    }
}

/// Effective failure rate in micro-units: the base rate below the threshold,
/// and `base * (1 + 10 * excess^2)` at or above it, where `excess` is the
/// utilization overshoot.
pub open spec fn spec_effective_rate(util: int, thr: int, base: int) -> int {
    if util < thr {
        base
    } else {
        cap_u64(
            base * ((SCALE as int) + 10 * (util - thr) * (util - thr) / (SCALE as int)) / (
            SCALE as int),
        )
    }
}

/// Compute `spec_utilization` exactly.
pub fn utilization_micro(count: u64, cap: u64) -> (r: u64)
    requires
        1 <= cap,
        count <= COUNT_LIMIT,
    ensures
        r == spec_utilization(count as int, cap as int),
        r <= COUNT_LIMIT * SCALE,
{
    proof {
        assert(count * SCALE <= COUNT_LIMIT * SCALE) by (nonlinear_arith)
            requires
                count <= COUNT_LIMIT,
        ;
        assert((count as int) * (SCALE as int) / (cap as int) <= (count as int) * (SCALE as int))
            by (nonlinear_arith)
            requires
                cap as int >= 1,
                (count as int) * (SCALE as int) >= 0,
        ;
    }
    (count * SCALE) / cap
}

/// Compute `spec_severity` exactly, saturating at `u64::MAX`.
pub fn severity_micro(util: u64, thr: u64) -> (r: u64)
    requires
        thr <= SCALE,
    ensures
        r == spec_severity(util as int, thr as int),
{
    if util <= thr {
        0
    } else if thr < SCALE {
        proof {
            assert(((util - thr) as int) * (SCALE as int) <= (u64::MAX as int) * (SCALE as int))
                by (nonlinear_arith)
                requires
                    0 <= (util - thr) as int <= u64::MAX as int,
            ;
        }
        let num: u128 = (util - thr) as u128 * (SCALE as u128);
        let q: u128 = num / ((SCALE - thr) as u128);
        proof {
            assert((num as int) / ((SCALE - thr) as int) <= num as int) by (nonlinear_arith)
                requires
                    (SCALE - thr) as int >= 1,
                    num as int >= 0,
            ;
        }
        if q > u64::MAX as u128 {
            u64::MAX
        } else {
            q as u64
        }
    } else {
        SCALE
    }
}

/// Compute `spec_effective_rate` exactly, saturating at `u64::MAX`.
pub fn effective_rate_micro(util: u64, thr: u64, base: u64) -> (r: u64)
    requires
        thr <= SCALE,
        base <= SCALE,
        util <= COUNT_LIMIT * SCALE,
    ensures
        r == spec_effective_rate(util as int, thr as int, base as int),
{
    if util < thr {
        base
    } else {
        let excess: u128 = (util - thr) as u128;
        proof {
            assert(10 * (excess as int) * (excess as int) <= 10 * (COUNT_LIMIT as int * SCALE as int)
                * (COUNT_LIMIT as int * SCALE as int)) by (nonlinear_arith)
                requires
                    0 <= excess as int <= COUNT_LIMIT as int * SCALE as int,
            ;
        }
        let boost: u128 = 10 * excess * excess / (SCALE as u128);
        proof {
            assert(10 * (excess as int) * (excess as int) / (SCALE as int) <= 10 * (excess as int)
                * (excess as int)) by (nonlinear_arith)
                requires
                    10 * (excess as int) * (excess as int) >= 0,
            ;
            assert((base as int) * ((SCALE as int) + boost as int) <= (SCALE as int) * ((
            SCALE as int) + boost as int)) by (nonlinear_arith)
                requires
                    base as int <= SCALE as int,
                    (SCALE as int) + boost as int >= 0,
            ;
        }
        let num: u128 = (base as u128) * ((SCALE as u128) + boost);
        let q: u128 = num / (SCALE as u128);
        proof {
            assert((num as int) / (SCALE as int) <= num as int) by (nonlinear_arith)
                requires
                    SCALE as int >= 1,
                    num as int >= 0,
            ;
        }
        if q > u64::MAX as u128 {
            u64::MAX
        } else {
            q as u64
        }
    }
}

/// The hazard formula is continuous at the threshold: with zero overshoot it
/// collapses to the base rate, the same value the sub-threshold branch gives.
pub proof fn lemma_effective_rate_continuous(thr: int, base: int)
    requires
        0 <= base <= SCALE,
    ensures
        spec_effective_rate(thr, thr, base) == base,
{
    assert(10 * (thr - thr) * (thr - thr) / (SCALE as int) == 0);
    assert(base * ((SCALE as int) + 0) / (SCALE as int) == base) by (nonlinear_arith)
        requires
            0 <= base <= SCALE,
    ;
}

/// The severity ramp reaches exactly one whole unit at full utilization.
pub proof fn lemma_severity_full(thr: int)
    requires
        0 <= thr < SCALE,
    ensures
        spec_severity(SCALE as int, thr) == SCALE,
{
    assert(((SCALE as int) - thr) * (SCALE as int) / ((SCALE as int) - thr) == SCALE) by (
    nonlinear_arith)
        requires
            0 < (SCALE as int) - thr,
    ;
}

/// Severity is zero anywhere at or below the threshold.
pub proof fn lemma_severity_zero(util: int, thr: int)
    requires
        util <= thr,
    ensures
        spec_severity(util, thr) == 0,
{
}

} // verus!
