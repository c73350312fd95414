//! The template bank: opening sentences for each stability regime.

use crate::text::append_percent1;
use crate::text::spec_percent1;
use vstd::prelude::*;
use vstd::string::StringExecFns;

verus! {

/// Utilization above this (0.5) adds the capacity-reserve hedge to the
/// stable opening.
pub const STABLE_HEDGE_LIMIT: u64 = 500_000;

pub open spec fn spec_stable_opening(util: int, hedge: bool) -> Seq<char> {
    let base = "Operational status nominal. System utilization at "@ + spec_percent1(util)
        + "%."@;
    if hedge && util > STABLE_HEDGE_LIMIT {
        base + " Capacity reserves adequate."@
    } else {
        base
    }
}

pub open spec fn spec_degrading_opening(util: int, hedge: bool) -> Seq<char> {
    let base = "System experiencing elevated utilization at "@ + spec_percent1(util) + "%."@;
    if hedge {
        base + " Trend monitoring ongoing."@
    } else {
        base
    }
}

pub open spec fn spec_critical_opening(util: int, hedge: bool) -> Seq<char> {
    let base = "Critical utilization detected at "@ + spec_percent1(util) + "%."@;
    if hedge {
        base + " Immediate attention required, though some uncertainty remains in projections."@
    } else {
        base + " Immediate attention required."@
    }
}

pub struct TemplateBank;

impl TemplateBank {
    pub fn new() -> TemplateBank {
        TemplateBank
    }

    pub fn stable_opening(&self, utilization: u64, hedge: bool) -> (r: String)
        requires
            utilization <= u64::MAX - 500,
        ensures
            r@ == spec_stable_opening(utilization as int, hedge),
    {
        let mut s = String::new();
        s.append("Operational status nominal. System utilization at ");
        append_percent1(&mut s, utilization);
        s.append("%.");
        if hedge && utilization > STABLE_HEDGE_LIMIT {
            s.append(" Capacity reserves adequate.");
        }
        proof {
            assert(s@ =~= spec_stable_opening(utilization as int, hedge));
        }
        s
    }

    pub fn degrading_opening(&self, utilization: u64, hedge: bool) -> (r: String)
        requires
            utilization <= u64::MAX - 500,
        ensures
            r@ == spec_degrading_opening(utilization as int, hedge),
    {
        let mut s = String::new();
        s.append("System experiencing elevated utilization at ");
        append_percent1(&mut s, utilization);
        s.append("%.");
        if hedge {
            s.append(" Trend monitoring ongoing.");
        }
        proof {
            assert(s@ =~= spec_degrading_opening(utilization as int, hedge));
        }
        s
    }

    pub fn critical_opening(&self, utilization: u64, hedge: bool) -> (r: String)
        requires
            utilization <= u64::MAX - 500,
        ensures
            r@ == spec_critical_opening(utilization as int, hedge),
    {
        let mut s = String::new();
        s.append("Critical utilization detected at ");
        append_percent1(&mut s, utilization);
        s.append("%.");
        if hedge {
            s.append(" Immediate attention required, though some uncertainty remains in projections.");
        } else {
            s.append(" Immediate attention required.");
        }
        proof {
            assert(s@ =~= spec_critical_opening(utilization as int, hedge));
        }
        s
    }
}

} // verus!
