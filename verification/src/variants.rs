//! The study configuration — which leverage levels and holding periods
//! are examined — and the variant generator that turns one simulated
//! path into one total return per (leverage, period) descriptor.

use vstd::prelude::*;
use vstd::std_specs::cmp::PartialEqSpec;
use crate::fixed::SCALE;
use crate::fixed::div_round;
use crate::percent::Percent;
use crate::percent::compose_decimals;
use crate::percent::compose_all_decimals;
use crate::period::Period;
use crate::period::MARKET_DAYS_PER_YEAR;
use crate::leverage::Leverage;
use crate::leverage::milli_of_amount;
use crate::leverage::lemma_leverage_new_spec;
use crate::expense_ratio::ExpenseRatio;
use crate::expense_ratio::daily_drag;
use crate::price_change::PriceChange;
use crate::price_change::changes_of;
use crate::price_change::lemma_change_of_decimal;
use crate::price_history::PriceHistory;
use crate::price_history::PriceHistoryModifier;
use crate::price_history::leveraged_decimal;

verus! {

/// How many leverage levels the study set holds.
pub const LEVERAGE_LEVEL_COUNT: usize = 47;

/// The amount of the `i`-th studied leverage level, in units of
/// `SCALE`: finer steps below 4× leverage, coarser above — 0.1× steps
/// up to 4×, then 0.5× steps up to 5×, then whole steps up to 10×.
pub open spec fn leverage_amount_at(i: int) -> int {
    if i < 40 {
        (i + 1) * 100_000_000
    } else if i < 42 {
        4_000_000_000 + (i - 39) * 500_000_000
    } else {
        5_000_000_000 + (i - 41) * 1_000_000_000
    }
}

/// The fixed set of leverage levels every simulated path is studied
/// under, in ascending order.
pub fn leverage_amounts() -> (r: Vec<Leverage>)
    ensures
        r@.len() == LEVERAGE_LEVEL_COUNT,
        forall|i: int|
            0 <= i < r@.len() ==> r@[i] == Leverage::new_spec(leverage_amount_at(i)),
{
    let mut results: Vec<Leverage> = Vec::new();
    let mut i: usize = 0;
    while i < LEVERAGE_LEVEL_COUNT
        invariant
            0 <= i <= LEVERAGE_LEVEL_COUNT,
            results@.len() == i,
            forall|j: int|
                0 <= j < i ==> results@[j] == Leverage::new_spec(leverage_amount_at(j)),
        decreases LEVERAGE_LEVEL_COUNT - i,
    {
        let amount: i64 = if i < 40 {
            (i as i64 + 1) * 100_000_000
        } else if i < 42 {
            4_000_000_000 + (i as i64 - 39) * 500_000_000
        } else {
            5_000_000_000 + (i as i64 - 41) * 1_000_000_000
        };
        results.push(Leverage::new(amount));
        i = i + 1;
    }
    results
}

/// The fixed set of holding periods under study.
pub fn periods() -> (r: Vec<Period>)
    ensures
        r@ =~= seq![
            Period::Years(5),
            Period::Years(10),
            Period::Years(15),
            Period::Years(20),
            Period::Years(25),
            Period::Years(30),
        ],
{
    let mut results: Vec<Period> = Vec::new();
    results.push(Period::Years(5));
    results.push(Period::Years(10));
    results.push(Period::Years(15));
    results.push(Period::Years(20));
    results.push(Period::Years(25));
    results.push(Period::Years(30));
    results
}

/// The annualized cost, in nano percentage points, charged by a
/// leveraged product: 0.93% a year.
pub const ANNUAL_EXPENSE_NANO_PERCENT: i64 = 930_000_000;

/// The per-day drag of the standard expense ratio of a leveraged
/// product.
pub open spec fn standard_expense_drag() -> int {
    daily_drag(div_round(ANNUAL_EXPENSE_NANO_PERCENT as int, 100), MARKET_DAYS_PER_YEAR as int)
}

/// The per-day expense drag that a leverage level calls for: none at or
/// below 1×, the standard drag above it. The decision goes by the
/// full-precision amount, not the rounded comparison value.
pub open spec fn expense_drag_for(amount: int) -> int {
    if amount > SCALE {
        standard_expense_drag()
    } else {
        0
    }
}

/// The expense ratio a leverage level carries: the zero ratio at or
/// below 1× leverage, a fixed annualized rate above it.
pub fn expense_ratio_for_leverage(leverage: Leverage) -> (r: ExpenseRatio)
    ensures
        r.amount_view() == expense_drag_for(leverage.amount_spec()),
{
    if leverage.amount() > SCALE {
        ExpenseRatio::new(Percent::from_percent(ANNUAL_EXPENSE_NANO_PERCENT), Period::Years(1))
    } else {
        ExpenseRatio::zero()
    }
}

/// The immutable key naming one (leverage level, holding period)
/// combination under study.
#[derive(Debug, Clone, Copy)]
pub struct PriceHistoryDescriptor {
    pub leverage: Leverage,
    pub period: Period,
}

impl PriceHistoryDescriptor {
    pub fn leverage(&self) -> (r: Leverage)
        ensures
            r == self.leverage,
    {
        self.leverage
    }

    pub fn period(&self) -> (r: Period)
        ensures
            r == self.period,
    {
        self.period
    }
}

impl PartialEq for PriceHistoryDescriptor {
    fn eq(&self, other: &Self) -> (r: bool) {
        self.leverage == other.leverage && self.period == other.period
    }
}

impl Eq for PriceHistoryDescriptor {}

impl vstd::std_specs::cmp::PartialEqSpecImpl for PriceHistoryDescriptor {
    open spec fn obeys_eq_spec() -> bool {
        true
    }

    open spec fn eq_spec(&self, other: &PriceHistoryDescriptor) -> bool {
        vstd::std_specs::cmp::PartialEqSpec::eq_spec(&self.leverage, &other.leverage)
            && vstd::std_specs::cmp::PartialEqSpec::eq_spec(&self.period, &other.period)
    }
}

/// The decimals of a path after leverage scaling, which runs only when
/// the level's rounded amount is not exactly 1×.
pub open spec fn leveraged_path(path: Seq<int>, amount: int) -> Seq<int> {
    if milli_of_amount(amount) != 1000 {
        path.map_values(|d: int| leveraged_decimal(d, amount))
    } else {
        path
    }
}

/// The decimals of a path after the expense drag, which runs only when
/// the drag is not zero.
pub open spec fn dragged_path(path: Seq<int>, drag: int) -> Seq<int> {
    if drag != 0 {
        path.map_values(|d: int| compose_decimals(d, drag))
    } else {
        path
    }
}

/// The total return of one path under one studied leverage level: the
/// path scaled by the leverage, dragged by the expense ratio the level
/// calls for, and compounded in order.
pub open spec fn variant_total(path: Seq<int>, amount: int) -> int {
    compose_all_decimals(
        dragged_path(leveraged_path(path, amount), expense_drag_for(amount)),
    )
}

/// The decimals of a path after the leverage modifier are exactly the
/// leveraged decimals of the original path.
proof fn lemma_leverage_step(ph: Seq<PriceChange>, leverage: Leverage, amount: int)
    requires
        leverage == Leverage::new_spec(amount),
        0 <= amount <= i64::MAX,
    ensures
        changes_of(
            crate::price_history::applied_seq(
                crate::price_history::LeverageModifier { leverage },
                ph,
            ),
        ) =~= leveraged_path(changes_of(ph), amount),
{
    lemma_leverage_new_spec(amount);
    let m = crate::price_history::LeverageModifier { leverage };
    let out = crate::price_history::applied_seq(m, ph);
    if m.needed_spec() {
        assert forall|j: int| 0 <= j < ph.len() implies changes_of(out)[j] == leveraged_path(
            changes_of(ph),
            amount,
        )[j] by {
            lemma_change_of_decimal(leveraged_decimal(ph[j]@, amount));
        };
    }
}

/// The decimals of a path after the expense modifier are exactly the
/// dragged decimals of the original path.
proof fn lemma_drag_step(ph: Seq<PriceChange>, expense_ratio: ExpenseRatio, drag: int)
    requires
        expense_ratio.amount_view() == drag,
    ensures
        changes_of(
            crate::price_history::applied_seq(
                crate::price_history::ExpenseRatioModifier { expense_ratio },
                ph,
            ),
        ) =~= dragged_path(changes_of(ph), drag),
{
    let m = crate::price_history::ExpenseRatioModifier { expense_ratio };
    let out = crate::price_history::applied_seq(m, ph);
    if m.needed_spec() {
        assert forall|j: int| 0 <= j < ph.len() implies changes_of(out)[j] == dragged_path(
            changes_of(ph),
            drag,
        )[j] by {
            lemma_change_of_decimal(compose_decimals(ph[j]@, drag));
        };
    }
}

/// For one simulated path: the parallel sequences
/// `descriptors[i] <-> total_price_changes[i]`, one entry per studied
/// leverage level, all sharing the same period.
#[derive(Debug, Clone)]
pub struct PriceHistoryVariants {
    total_price_changes: Vec<PriceChange>,
    descriptors: Vec<PriceHistoryDescriptor>,
}

impl PriceHistoryVariants {
    pub closed spec fn totals_spec(&self) -> Seq<PriceChange> {
        self.total_price_changes@
    }

    pub closed spec fn descriptors_spec(&self) -> Seq<PriceHistoryDescriptor> {
        self.descriptors@
    }

    /// Whether this variant set is exactly what `new` produces for some
    /// path, for the period it carries.
    pub open spec fn wf(&self) -> bool {
        &&& self.descriptors_spec().len() == LEVERAGE_LEVEL_COUNT
        &&& self.totals_spec().len() == LEVERAGE_LEVEL_COUNT
        &&& forall|i: int|
            0 <= i < LEVERAGE_LEVEL_COUNT ==> (#[trigger] self.descriptors_spec()[i]).leverage
                == Leverage::new_spec(leverage_amount_at(i))
    }

    /// Expands one simulated path into one compounded total return per
    /// studied leverage level, each aligned with its descriptor.
    pub fn new(price_history: PriceHistory, period: Period) -> (r: PriceHistoryVariants)
        ensures
            r.wf(),
            forall|i: int|
                0 <= i < LEVERAGE_LEVEL_COUNT ==> (#[trigger] r.descriptors_spec()[i]).period
                    == period,
            forall|i: int|
                0 <= i < LEVERAGE_LEVEL_COUNT ==> (#[trigger] r.totals_spec()[i])@
                    == variant_total(changes_of(price_history@), leverage_amount_at(i)),
    {
        let amounts = leverage_amounts();
        let mut total_price_changes: Vec<PriceChange> = Vec::new();
        let mut descriptors: Vec<PriceHistoryDescriptor> = Vec::new();
        let mut i: usize = 0;
        while i < amounts.len()
            invariant
                0 <= i <= amounts.len(),
                amounts@.len() == LEVERAGE_LEVEL_COUNT,
                forall|j: int|
                    0 <= j < amounts@.len() ==> amounts@[j] == Leverage::new_spec(
                        leverage_amount_at(j),
                    ),
                total_price_changes@.len() == i,
                descriptors@.len() == i,
                forall|j: int|
                    0 <= j < i ==> (#[trigger] descriptors@[j]).leverage == Leverage::new_spec(
                        leverage_amount_at(j),
                    ) && descriptors@[j].period == period,
                forall|j: int|
                    0 <= j < i ==> (#[trigger] total_price_changes@[j])@ == variant_total(
                        changes_of(price_history@),
                        leverage_amount_at(j),
                    ),
            decreases amounts.len() - i,
        {
            let leverage = amounts[i];
            let expense_ratio = expense_ratio_for_leverage(leverage);
            let leveraged = price_history.duplicate().apply_modifier(
                PriceHistory::leverage_modifier(leverage),
            );
            let variant = leveraged.apply_modifier(
                PriceHistory::expense_ratio_modifier(expense_ratio),
            );
            let total = variant.total();
            proof {
                let amount = leverage_amount_at(i as int);
                lemma_leverage_new_spec(amount);
                lemma_leverage_step(price_history@, leverage, amount);
                lemma_drag_step(leveraged@, expense_ratio, expense_drag_for(amount));
            }
            total_price_changes.push(total);
            descriptors.push(PriceHistoryDescriptor { leverage, period });
            i = i + 1;
        }
        PriceHistoryVariants { total_price_changes, descriptors }
    }

    pub fn descriptors(&self) -> (r: &Vec<PriceHistoryDescriptor>)
        ensures
            r@ == self.descriptors_spec(),
    {
        &self.descriptors
    }

    pub fn total_price_changes(&self) -> (r: &Vec<PriceChange>)
        ensures
            r@ == self.totals_spec(),
    {
        &self.total_price_changes
    }
}

} // verus!
