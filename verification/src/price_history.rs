//! An ordered sequence of daily price changes, with composable
//! modifiers and a compounded-total reduction.

use vstd::prelude::*;
use crate::fixed::SCALE;
use crate::fixed::div_round;
use crate::fixed::clamp_i64;
use crate::fixed::div_round_i128;
use crate::fixed::clamp_i64_exec;
use crate::fixed::lemma_mul_abs_bound;
use crate::percent::compose_all_decimals;
use crate::percent::compose_decimals;
use crate::price_change::PriceChange;
use crate::price_change::changes_of;
use crate::price_change::change_of_decimal;
use crate::price_change::lemma_change_of_decimal;
use crate::price_change::lemma_price_change_view_injective;
use crate::leverage::Leverage;
use crate::expense_ratio::ExpenseRatio;

verus! {

/// A transformation applied uniformly to every change of a price
/// history. `modify_spec` pins down each implementation's arithmetic;
/// `needed_spec` reports whether the transformation is anything but the
/// identity, so that a history can skip it entirely.
pub trait PriceHistoryModifier: Sized {
    spec fn modify_spec(&self, price_change: PriceChange) -> PriceChange;

    spec fn needed_spec(&self) -> bool;

    fn modify_price_change(&self, price_change: PriceChange) -> (r: PriceChange)
        ensures
            r == self.modify_spec(price_change),
    ;

    fn modifications_needed(&self) -> (r: bool)
        ensures
            r == self.needed_spec(),
    ;
}

/// The element-wise application of a modifier to a sequence.
pub open spec fn modified_seq<M: PriceHistoryModifier>(modifier: M, s: Seq<PriceChange>) -> Seq<
    PriceChange,
> {
    s.map_values(|pc: PriceChange| modifier.modify_spec(pc))
}

/// What applying a modifier leaves behind: the sequence untouched when
/// the modifier reports it is not needed, otherwise every element
/// rewritten.
pub open spec fn applied_seq<M: PriceHistoryModifier>(modifier: M, s: Seq<PriceChange>) -> Seq<
    PriceChange,
> {
    if modifier.needed_spec() {
        modified_seq(modifier, s)
    } else {
        s
    }
}

/// The compounded total of a sequence of changes: every change chained
/// multiplicatively, in order.
pub open spec fn total_of(s: Seq<PriceChange>) -> int {
    compose_all_decimals(changes_of(s))
}

/// One simulated path: the ordered daily price changes.
#[derive(Debug, Clone)]
pub struct PriceHistory {
    price_changes: Vec<PriceChange>,
}

impl View for PriceHistory {
    type V = Seq<PriceChange>;

    closed spec fn view(&self) -> Seq<PriceChange> {
        self.price_changes@
    }
}

impl PriceHistory {
    pub fn new() -> (r: Self)
        ensures
            r@.len() == 0,
    {
        PriceHistory { price_changes: Vec::new() }
    }

    /// A history over an already collected sequence of changes.
    pub fn from_changes(price_changes: Vec<PriceChange>) -> (r: Self)
        ensures
            r@ == price_changes@,
    {
        PriceHistory { price_changes }
    }

    /// Appends one simulated day.
    pub fn add(&mut self, price_change: PriceChange)
        ensures
            final(self)@ == old(self)@.push(price_change),
    {
        self.price_changes.push(price_change);
    }

    pub fn len(&self) -> (r: usize)
        ensures
            r == self@.len(),
    {
        self.price_changes.len()
    }

    pub fn get(&self, i: usize) -> (r: PriceChange)
        requires
            i < self@.len(),
        ensures
            r == self@[i as int],
    {
        self.price_changes[i]
    }

    /// An element-wise copy of the history.
    pub fn duplicate(&self) -> (r: Self)
        ensures
            r@ == self@,
    {
        let mut copied: Vec<PriceChange> = Vec::new();
        let mut i: usize = 0;
        while i < self.price_changes.len()
            invariant
                0 <= i <= self.price_changes.len(),
                copied@ =~= self.price_changes@.subrange(0, i as int),
            decreases self.price_changes.len() - i,
        {
            copied.push(self.price_changes[i]);
            i = i + 1;
        }
        proof {
            assert(copied@ =~= self.price_changes@);
        }
        PriceHistory { price_changes: copied }
    }

    /// Rewrites every change in place with the modifier, unless the
    /// modifier reports that it is the identity and can be skipped.
    pub fn apply_modifier<M: PriceHistoryModifier>(self, modifier: M) -> (r: Self)
        ensures
            r@ == applied_seq(modifier, self@),
    {
        let ghost original = self.price_changes@;
        let mut result = self;
        if modifier.modifications_needed() {
            let mut i: usize = 0;
            while i < result.price_changes.len()
                invariant
                    0 <= i <= result.price_changes.len(),
                    result.price_changes@.len() == original.len(),
                    forall|j: int|
                        0 <= j < i ==> result.price_changes@[j] == modifier.modify_spec(
                            original[j],
                        ),
                    forall|j: int| i <= j < original.len() ==> result.price_changes@[j]
                        == original[j],
                decreases result.price_changes.len() - i,
            {
                let updated = modifier.modify_price_change(result.price_changes[i]);
                result.price_changes.set(i, updated);
                i = i + 1;
            }
            proof {
                assert(result.price_changes@ =~= modified_seq(modifier, original));
            }
        }
        result
    }

    pub fn leverage_modifier(leverage: Leverage) -> (r: LeverageModifier)
        ensures
            r.leverage == leverage,
    {
        LeverageModifier { leverage }
    }

    pub fn expense_ratio_modifier(expense_ratio: ExpenseRatio) -> (r: ExpenseRatioModifier)
        ensures
            r.expense_ratio == expense_ratio,
    {
        ExpenseRatioModifier { expense_ratio }
    }

    /// Folds the whole path into one compounded change.
    pub fn total(&self) -> (r: PriceChange)
        ensures
            r@ == total_of(self@),
    {
        PriceChange::compose_all(&self.price_changes)
    }
}

/// Scales the decimal portion of each daily change by the leverage
/// factor.
#[derive(Debug, Clone, Copy)]
pub struct LeverageModifier {
    pub leverage: Leverage,
}

/// The decimal of a change scaled by a leverage amount, saturating at
/// the representable range.
pub open spec fn leveraged_decimal(decimal: int, amount: int) -> int {
    clamp_i64(div_round(decimal * amount, SCALE as int))
}

impl PriceHistoryModifier for LeverageModifier {
    open spec fn modify_spec(&self, price_change: PriceChange) -> PriceChange {
        change_of_decimal(leveraged_decimal(price_change@, self.leverage.amount_spec()))
    }

    open spec fn needed_spec(&self) -> bool {
        self.leverage.milli_spec() != 1000
    }

    fn modify_price_change(&self, price_change: PriceChange) -> (r: PriceChange) {
        proof {
            crate::price_change::lemma_price_change_view_bounds(price_change);
            crate::leverage::lemma_leverage_amount_bounds(self.leverage);
            lemma_mul_abs_bound(
                price_change@,
                self.leverage.amount_spec(),
                i64::MAX as int + 1,
                i64::MAX as int + 1,
            );
            assert((i64::MAX as int + 1) * (i64::MAX as int + 1) < i128::MAX)
                by (nonlinear_arith);
        }
        let product: i128 = (price_change.percent_change().as_decimal() as i128) * (
        self.leverage.amount() as i128);
        let scaled: i128 = div_round_i128(product, SCALE as u64);
        let r = PriceChange::new(crate::percent::Percent::from_decimal(clamp_i64_exec(scaled)));
        proof {
            lemma_change_of_decimal(leveraged_decimal(price_change@, self.leverage.amount_spec()));
            lemma_price_change_view_injective(r, self.modify_spec(price_change));
        }
        r
    }

    fn modifications_needed(&self) -> (r: bool) {
        self.leverage != Leverage::new(SCALE)
    }
}

/// Composes each daily change multiplicatively with the pre-converted
/// daily expense drag.
#[derive(Debug, Clone, Copy)]
pub struct ExpenseRatioModifier {
    pub expense_ratio: ExpenseRatio,
}

impl PriceHistoryModifier for ExpenseRatioModifier {
    open spec fn modify_spec(&self, price_change: PriceChange) -> PriceChange {
        change_of_decimal(compose_decimals(price_change@, self.expense_ratio.amount_view()))
    }

    open spec fn needed_spec(&self) -> bool {
        self.expense_ratio.amount_view() != 0
    }

    fn modify_price_change(&self, price_change: PriceChange) -> (r: PriceChange) {
        let r = PriceChange::new(
            price_change.percent_change().compose(self.expense_ratio.amount()),
        );
        proof {
            lemma_change_of_decimal(
                compose_decimals(price_change@, self.expense_ratio.amount_view()),
            );
            lemma_price_change_view_injective(r, self.modify_spec(price_change));
        }
        r
    }

    fn modifications_needed(&self) -> (r: bool) {
        self.expense_ratio.amount().as_decimal() != 0
    }
}

} // verus!
