//! Holding periods, normalized to trading days.

use vstd::prelude::*;
use vstd::std_specs::cmp::PartialEqSpec;
use vstd::std_specs::cmp::PartialOrdSpec;
use core::cmp::Ordering;

verus! {

/// Trading days in one year of market activity.
pub const MARKET_DAYS_PER_YEAR: u64 = 253;

/// A holding period, as either a count of trading days or a count of
/// years (one trading year being `MARKET_DAYS_PER_YEAR` days). Equality
/// and ordering go by the normalized day count, not by the stored
/// variant.
#[derive(Debug, Clone, Copy)]
pub enum Period {
    Days(u64),
    Years(u32),
}

impl Period {
    /// The normalized day count of the period.
    pub open spec fn days_spec(&self) -> int {
        match *self {
            Period::Days(d) => d as int,
            Period::Years(y) => y as int * MARKET_DAYS_PER_YEAR as int,
        }
    }

    pub fn as_days(&self) -> (r: u64)
        ensures
            r == self.days_spec(),
    {
        match *self {
            Period::Days(d) => d,
            Period::Years(y) => (y as u64) * MARKET_DAYS_PER_YEAR,
        }
    }
}

impl PartialEq for Period {
    fn eq(&self, other: &Self) -> (r: bool) {
        self.as_days() == other.as_days()
    }
}

impl Eq for Period {}

impl vstd::std_specs::cmp::PartialEqSpecImpl for Period {
    open spec fn obeys_eq_spec() -> bool {
        true
    }

    open spec fn eq_spec(&self, other: &Period) -> bool {
        self.days_spec() == other.days_spec()
    }
}

impl PartialOrd for Period {
    fn partial_cmp(&self, other: &Self) -> (r: Option<Ordering>) {
        let a = self.as_days();
        let b = other.as_days();
        if a < b {
            Some(Ordering::Less)
        } else if a == b {
            Some(Ordering::Equal)
        } else {
            Some(Ordering::Greater)
        }
    }
}

impl vstd::std_specs::cmp::PartialOrdSpecImpl for Period {
    open spec fn obeys_partial_cmp_spec() -> bool {
        true
    }

    open spec fn partial_cmp_spec(&self, other: &Period) -> Option<Ordering> {
        if self.days_spec() < other.days_spec() {
            Some(Ordering::Less)
        } else if self.days_spec() == other.days_spec() {
            Some(Ordering::Equal)
        } else {
            Some(Ordering::Greater)
        }
    }
}

/// Two periods with the same normalized day count are equal, and their
/// three-way comparison reports equality — whichever variants store
/// them.
pub proof fn lemma_period_eq_by_days(p1: Period, p2: Period)
    requires
        p1.days_spec() == p2.days_spec(),
    ensures
        p1.eq_spec(&p2),
        p1.partial_cmp_spec(&p2) == Some(Ordering::Equal),
{
}

} // verus!
