//! Leverage multipliers with fixed-point comparison.

use vstd::prelude::*;
use vstd::std_specs::cmp::PartialEqSpec;
use core::cmp::Ordering;
use crate::fixed::div_round;
use crate::fixed::div_round_i128;

verus! {

/// Nano units per milli unit: comparison rounds the full-precision
/// amount to three decimal places.
pub const NANO_PER_MILLI: i64 = 1_000_000;

/// A non-negative multiplier applied daily to a price change to
/// simulate a leveraged fund; `SCALE` is a plain unleveraged position.
/// The full-precision amount drives the arithmetic, but equality,
/// ordering and hashing round it to three decimal places, so nearby
/// amounts compare equal.
#[derive(Debug, Clone, Copy)]
pub struct Leverage {
    amount: i64,
    comparable_amount: u32,
}

/// The three-decimal rounding used for comparison, saturated into the
/// comparable range.
pub open spec fn milli_of_amount(amount: int) -> int {
    if div_round(amount, NANO_PER_MILLI as int) > u32::MAX {
        u32::MAX as int
    } else {
        div_round(amount, NANO_PER_MILLI as int)
    }
}

impl Leverage {
    /// The full-precision amount, in units of `SCALE`.
    pub closed spec fn amount_spec(&self) -> int {
        self.amount as int
    }

    /// The amount rounded to three decimal places, as used by
    /// comparisons.
    pub closed spec fn milli_spec(&self) -> int {
        self.comparable_amount as int
    }

    /// The value `Leverage::new(amount)` returns.
    pub closed spec fn new_spec(amount: int) -> Leverage {
        Leverage { amount: amount as i64, comparable_amount: milli_of_amount(amount) as u32 }
    }

    /// A leverage multiplier in units of `SCALE`; a negative amount is
    /// invalid input.
    pub fn new(amount: i64) -> (r: Leverage)
        requires
            amount >= 0,
        ensures
            r == Self::new_spec(amount as int),
            r.amount_spec() == amount,
            r.milli_spec() == milli_of_amount(amount as int),
    {
        proof {
            crate::fixed::lemma_div_round_nonneg(amount as int, NANO_PER_MILLI as int);
        }
        let milli: i128 = div_round_i128(amount as i128, NANO_PER_MILLI as u64);
        let comparable_amount: u32 = if milli > u32::MAX as i128 {
            u32::MAX
        } else {
            milli as u32
        };
        Leverage { amount, comparable_amount }
    }

    pub fn amount(&self) -> (r: i64)
        ensures
            r == self.amount_spec(),
    {
        self.amount
    }
}

impl PartialEq for Leverage {
    fn eq(&self, other: &Self) -> (r: bool) {
        self.comparable_amount == other.comparable_amount
    }
}

impl Eq for Leverage {}

impl vstd::std_specs::cmp::PartialEqSpecImpl for Leverage {
    open spec fn obeys_eq_spec() -> bool {
        true
    }

    open spec fn eq_spec(&self, other: &Leverage) -> bool {
        self.milli_spec() == other.milli_spec()
    }
}

impl PartialOrd for Leverage {
    fn partial_cmp(&self, other: &Self) -> (r: Option<Ordering>) {
        if self.comparable_amount < other.comparable_amount {
            Some(Ordering::Less)
        } else if self.comparable_amount == other.comparable_amount {
            Some(Ordering::Equal)
        } else {
            Some(Ordering::Greater)
        }
    }
}

impl vstd::std_specs::cmp::PartialOrdSpecImpl for Leverage {
    open spec fn obeys_partial_cmp_spec() -> bool {
        true
    }

    open spec fn partial_cmp_spec(&self, other: &Leverage) -> Option<Ordering> {
        if self.milli_spec() < other.milli_spec() {
            Some(Ordering::Less)
        } else if self.milli_spec() == other.milli_spec() {
            Some(Ordering::Equal)
        } else {
            Some(Ordering::Greater)
        }
    }
}

/// The fields of a constructed leverage, visible to other modules.
pub proof fn lemma_leverage_new_spec(a: int)
    requires
        0 <= a <= i64::MAX,
    ensures
        Leverage::new_spec(a).amount_spec() == a,
        Leverage::new_spec(a).milli_spec() == milli_of_amount(a),
{
    crate::fixed::lemma_div_round_nonneg(a, NANO_PER_MILLI as int);
}

/// The stored amounts lie in the ranges of their representations.
pub broadcast proof fn lemma_leverage_amount_bounds(l: Leverage)
    ensures
        i64::MIN <= #[trigger] l.amount_spec() <= i64::MAX,
        0 <= l.milli_spec() <= u32::MAX,
{
}

/// Two non-negative amounts construct equal leverages exactly when they
/// agree after rounding to three decimal places.
pub proof fn lemma_leverage_eq_three_decimals(a: int, b: int)
    requires
        a >= 0,
        b >= 0,
    ensures
        Leverage::new_spec(a).eq_spec(&Leverage::new_spec(b)) <==> milli_of_amount(a)
            == milli_of_amount(b),
{
    crate::fixed::lemma_div_round_nonneg(a, NANO_PER_MILLI as int);
    crate::fixed::lemma_div_round_nonneg(b, NANO_PER_MILLI as int);
}

} // verus!
