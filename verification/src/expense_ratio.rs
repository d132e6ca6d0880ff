//! Annualized cost drag converted to an equivalent per-day deduction.

use vstd::prelude::*;
use crate::fixed::SCALE;
use crate::fixed::div_round;
use crate::fixed::div_round_i128;
use crate::percent::Percent;
use crate::period::Period;

verus! {

/// An expense ratio held as the negative per-day percent drag implied
/// by an annualized cost over a period.
#[derive(Debug, Clone, Copy, PartialEq, Eq, Structural)]
pub struct ExpenseRatio {
    amount: Percent,
}

/// The per-day drag of an annualized amount spread over `days` days:
/// the negated rounded share of one day.
pub open spec fn daily_drag(amount: int, days: int) -> int {
    -div_round(amount, days)
}

impl ExpenseRatio {
    /// The stored (negative) per-day drag.
    pub closed spec fn amount_view(&self) -> int {
        self.amount@
    }

    /// Converts an annualized cost into the equivalent per-day drag
    /// over the given period.
    pub fn new(amount: Percent, period: Period) -> (r: ExpenseRatio)
        requires
            period.days_spec() > 0,
            amount@ > i64::MIN,
        ensures
            r.amount_view() == daily_drag(amount@, period.days_spec()),
    {
        let days = period.as_days();
        proof {
            if amount@ >= 0 {
                crate::fixed::lemma_div_round_magnitude(amount@, period.days_spec());
            } else {
                crate::fixed::lemma_div_round_magnitude(-amount@, period.days_spec());
            }
        }
        let share: i128 = div_round_i128(amount.as_decimal() as i128, days);
        ExpenseRatio { amount: Percent::from_decimal(-(share as i64)) }
    }

    /// The ratio of a product with no cost at all.
    pub fn zero() -> (r: ExpenseRatio)
        ensures
            r.amount_view() == 0,
    {
        ExpenseRatio { amount: Percent::zero() }
    }

    /// The per-day drag as a `Percent`.
    pub fn amount(&self) -> (r: Percent)
        ensures
            r@ == self.amount_view(),
    {
        self.amount
    }

    /// The per-day multiplier implied by the drag, in units of `SCALE`.
    pub fn multiplier(&self) -> (r: i128)
        ensures
            r == SCALE - self.amount_view(),
    {
        (SCALE as i128) - (self.amount.as_decimal() as i128)
    }
}

} // verus!
