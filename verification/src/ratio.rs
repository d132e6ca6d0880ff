//! The conditional-match ratio accumulator: how many samples satisfy a
//! supplied predicate, against how many were seen.

use vstd::prelude::*;
use core::marker::PhantomData;
use crate::fixed::SCALE;
use crate::fixed::div_round;
use crate::fixed::div_round_i128;
use crate::percent::Percent;
use crate::period::Period;
use crate::price_change::PriceChange;
use crate::price_change::annualized_decimal;
use crate::predicate::Predicate;
use crate::stats::PriceHistoryStatisticValue;
use crate::variants::PriceHistoryDescriptor;

verus! {

/// Counts of predicate matches and of samples seen. The predicate
/// lives in the externally supplied context; the accumulator itself is
/// two counters.
#[derive(Debug)]
pub struct MatchingPriceChangeRatio<F: Predicate<PriceChange>> {
    matching_count: u64,
    count: u64,
    predicate_kind: PhantomData<F>,
}

/// The externally supplied predicate a ratio is computed against.
pub struct MatchingPriceChangeRatioContext<F: Predicate<PriceChange>> {
    pub predicate: F,
}

impl<F: Predicate<PriceChange>> MatchingPriceChangeRatioContext<F> {
    pub fn new(predicate: F) -> (r: Self)
        ensures
            r.predicate == predicate,
    {
        MatchingPriceChangeRatioContext { predicate }
    }
}

/// The mathematical content of a `MatchingPriceChangeRatio`.
pub struct RatioModel {
    pub matching_count: nat,
    pub count: nat,
}

impl<F: Predicate<PriceChange>> MatchingPriceChangeRatio<F> {
    /// The fraction of samples that matched, as a percent value.
    pub fn success_percent(&self) -> (r: Percent)
        requires
            self.wf(),
            self.count_spec() > 0,
        ensures
            r@ == div_round(
                self.model().matching_count as int * SCALE,
                self.model().count as int,
            ),
    {
        proof {
            vstd::arithmetic::mul::lemma_mul_inequality(
                self.matching_count as int,
                self.count as int,
                SCALE as int,
            );
            vstd::arithmetic::mul::lemma_mul_is_commutative(self.matching_count as int, SCALE as int);
            vstd::arithmetic::mul::lemma_mul_is_commutative(self.count as int, SCALE as int);
            vstd::arithmetic::mul::lemma_mul_nonnegative(self.matching_count as int, SCALE as int);
            vstd::arithmetic::mul::lemma_mul_upper_bound(
                self.matching_count as int,
                u64::MAX as int,
                SCALE as int,
                SCALE as int,
            );
            crate::fixed::lemma_div_round_bounded(
                self.matching_count as int * SCALE,
                self.count as int,
                SCALE as int,
            );
        }
        let product: u128 = (self.matching_count as u128) * (SCALE as u128);
        let decimal = div_round_i128(product as i128, self.count);
        Percent::from_decimal(decimal as i64)
    }

    /// The fraction of samples that did not match, as a percent value.
    pub fn failure_percent(&self) -> (r: Percent)
        requires
            self.wf(),
            self.count_spec() > 0,
        ensures
            r@ == SCALE - div_round(
                self.model().matching_count as int * SCALE,
                self.model().count as int,
            ),
    {
        let success = self.success_percent();
        proof {
            vstd::arithmetic::mul::lemma_mul_nonnegative(self.matching_count as int, SCALE as int);
            vstd::arithmetic::div_mod::lemma_div_pos_is_pos(
                self.matching_count as int * SCALE + (self.count as int) / 2,
                self.count as int,
            );
        }
        Percent::from_decimal(SCALE - success.as_decimal())
    }
}

impl<F: Predicate<PriceChange>> PriceHistoryStatisticValue for MatchingPriceChangeRatio<F> {
    type Context = MatchingPriceChangeRatioContext<F>;

    type Model = RatioModel;

    closed spec fn wf(&self) -> bool {
        self.matching_count <= self.count
    }

    closed spec fn model(&self) -> RatioModel {
        RatioModel { matching_count: self.matching_count as nat, count: self.count as nat }
    }

    open spec fn model_wf(m: RatioModel) -> bool {
        m.matching_count <= m.count
    }

    closed spec fn count_spec(&self) -> nat {
        self.count as nat
    }

    open spec fn ctx_wf(context: Option<MatchingPriceChangeRatioContext<F>>) -> bool {
        context is Some
    }

    open spec fn sample_ok(price_change: PriceChange, descriptor: PriceHistoryDescriptor) -> bool {
        true
    }

    open spec fn new_model(
        price_change: PriceChange,
        descriptor: PriceHistoryDescriptor,
        context: Option<MatchingPriceChangeRatioContext<F>>,
    ) -> RatioModel {
        RatioModel {
            matching_count: if context.unwrap().predicate.holds(price_change) {
                1
            } else {
                0
            },
            count: 1,
        }
    }

    open spec fn combine_model(a: RatioModel, b: RatioModel) -> RatioModel {
        RatioModel {
            matching_count: a.matching_count + b.matching_count,
            count: a.count + b.count,
        }
    }

    open spec fn identity_model() -> RatioModel {
        RatioModel { matching_count: 0, count: 0 }
    }

    fn identity() -> (r: Self) {
        MatchingPriceChangeRatio { matching_count: 0, count: 0, predicate_kind: PhantomData }
    }

    fn new(
        price_change: PriceChange,
        _descriptor: &PriceHistoryDescriptor,
        context: Option<&MatchingPriceChangeRatioContext<F>>,
    ) -> (r: Self) {
        let ctx = context.unwrap();
        let matching_count: u64 = if ctx.predicate.test(price_change) {
            1
        } else {
            0
        };
        MatchingPriceChangeRatio { matching_count, count: 1, predicate_kind: PhantomData }
    }

    fn reduce(
        a: Self,
        b: Self,
        _context: Option<&MatchingPriceChangeRatioContext<F>>,
    ) -> (r: Self) {
        MatchingPriceChangeRatio {
            matching_count: a.matching_count + b.matching_count,
            count: a.count + b.count,
            predicate_kind: PhantomData,
        }
    }

    proof fn wf_model(&self) {
    }

    proof fn new_model_wf(
        price_change: PriceChange,
        descriptor: PriceHistoryDescriptor,
        context: Option<MatchingPriceChangeRatioContext<F>>,
    ) {
    }

    proof fn combine_model_wf(a: RatioModel, b: RatioModel) {
    }

    proof fn combine_model_assoc(a: RatioModel, b: RatioModel, c: RatioModel) {
    }

    proof fn identity_model_neutral(m: RatioModel) {
    }
}

/// The predicate the study asks of each total return: whether its
/// annualized return clears a threshold.
#[derive(Debug, Clone, Copy)]
pub struct AnnualizedGainPredicate {
    pub period: Period,
    pub threshold: Percent,
}

impl Predicate<PriceChange> for AnnualizedGainPredicate {
    open spec fn holds(&self, value: PriceChange) -> bool {
        &&& self.period.days_spec() > 0
        &&& value@ >= -SCALE
        &&& annualized_decimal(value@, self.period.days_spec()) >= self.threshold@
    }

    fn test(&self, value: PriceChange) -> (r: bool) {
        if self.period.as_days() == 0 {
            false
        } else if value.percent_change().as_decimal() < -SCALE {
            false
        } else {
            let annualized = value.annualized_return(self.period);
            annualized.percent_change().as_decimal() >= self.threshold.as_decimal()
        }
    }
}

} // verus!
