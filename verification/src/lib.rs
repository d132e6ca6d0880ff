//! A verified engine for estimating long-run return distributions of
//! leveraged investment products.
//!
//! Daily price changes are modelled as fixed-point decimals (one unit is
//! one billionth), so every transformation — leverage scaling, expense
//! drag, multiplicative compounding, annualization — has an exact
//! mathematical contract instead of floating-point behaviour.

mod fixed;
mod percent;
mod period;
mod leverage;
mod expense_ratio;
mod price_change;
mod price_history;
mod variants;
mod strategy;
mod predicate;
mod stats;
mod median;
mod ratio;

pub use fixed::SCALE;
pub use fixed::div_round;
pub use fixed::clamp_i64;
pub use fixed::fixmul;
pub use fixed::fixpow;
pub use fixed::gcd;
pub use fixed::sq;
pub use fixed::lemma_div_round_nonneg;
pub use fixed::lemma_div_round_mono;
pub use fixed::lemma_div_round_magnitude;
pub use fixed::lemma_div_round_bounded;
pub use fixed::lemma_mul_abs_bound;
pub use fixed::lemma_square_mono;
pub use fixed::lemma_fixmul_nonneg;
pub use fixed::lemma_fixmul_mono;
pub use fixed::lemma_fixmul_comm;
pub use fixed::lemma_fixpow_one;
pub use fixed::lemma_fixpow_bounds;
pub use fixed::lemma_fixpow_mono;
pub use fixed::lemma_fixpow_zero_base;
pub use fixed::lemma_gcd_bounds;

pub use percent::Percent;
pub use percent::multiplier_of;
pub use percent::decimal_of_multiplier;
pub use percent::compose_decimals;
pub use percent::compose_all_decimals;
pub use percent::decimals_of;
pub use percent::fold_compose;
pub use percent::lemma_compose_all_is_pairwise_fold;
pub use percent::lemma_percent_view_bounds;
pub use percent::lemma_percent_view_injective;

pub use period::Period;
pub use period::MARKET_DAYS_PER_YEAR;
pub use period::lemma_period_eq_by_days;

pub use leverage::Leverage;
pub use leverage::NANO_PER_MILLI;
pub use leverage::milli_of_amount;
pub use leverage::lemma_leverage_eq_three_decimals;
pub use leverage::lemma_leverage_new_spec;
pub use leverage::lemma_leverage_amount_bounds;

pub use expense_ratio::ExpenseRatio;
pub use expense_ratio::daily_drag;

pub use price_change::PriceChange;
pub use price_change::changes_of;
pub use price_change::capped_multiplier;
pub use price_change::pow_root_brackets;
pub use price_change::pow_root_value;
pub use price_change::exponent_gcd;
pub use price_change::annualized_decimal;
pub use price_change::total_return_decimal;
pub use price_change::change_of_decimal;
pub use price_change::lemma_change_of_decimal;
pub use price_change::lemma_pow_root_unique;
pub use price_change::lemma_pow_root_exists;
pub use price_change::lemma_percent_round_trip;
pub use price_change::lemma_price_change_view_bounds;
pub use price_change::lemma_price_change_view_injective;
pub use price_change::lemma_annualize_total_round_trip;
pub use price_change::lemma_annualize_total_round_trip_years;
pub use price_change::lemma_years_exponent;

pub use price_history::PriceHistory;
pub use price_history::PriceHistoryModifier;
pub use price_history::LeverageModifier;
pub use price_history::ExpenseRatioModifier;
pub use price_history::modified_seq;
pub use price_history::applied_seq;
pub use price_history::total_of;
pub use price_history::leveraged_decimal;

pub use variants::leverage_amounts;
pub use variants::periods;
pub use variants::expense_ratio_for_leverage;
pub use variants::PriceHistoryDescriptor;
pub use variants::PriceHistoryVariants;
pub use variants::LEVERAGE_LEVEL_COUNT;
pub use variants::ANNUAL_EXPENSE_NANO_PERCENT;
pub use variants::leverage_amount_at;
pub use variants::standard_expense_drag;
pub use variants::expense_drag_for;
pub use variants::leveraged_path;
pub use variants::dragged_path;
pub use variants::variant_total;

pub use strategy::PricingStrategy;
pub use strategy::AlternatingPricingStrategy;
pub use strategy::SamplingPricingStrategy;

pub use predicate::Predicate;

pub use stats::PriceHistoryStatisticValue;
pub use stats::PriceHistoryStatistic;
pub use stats::ComputedStatistic;
pub use stats::calculate_statistic;
pub use stats::AveragePriceChange;
pub use stats::AverageModel;
pub use stats::StandardDeviationPriceChange;
pub use stats::StandardDeviationPriceChangeContext;
pub use stats::SpreadModel;
pub use stats::COUNT_CAP;
pub use stats::deref_ctx;
pub use stats::ctx_view;
pub use stats::ctx_for;
pub use stats::contexts_ok;
pub use stats::aligned_variants;
pub use stats::samples_ok;
pub use stats::column_fold;
pub use stats::sat_add_variance;
pub use stats::lemma_column_fold_wf;
pub use stats::lemma_column_fold_split;

pub use median::MedianPriceChange;
pub use median::sorted_changes;
pub use median::change_leq;
pub use median::merge_changes;
pub use median::lemma_merge_properties;
pub use median::lemma_median_count_is_len;
pub use median::lemma_merge_assoc;
pub use median::lemma_median_merge_is_sorted_concat;

pub use ratio::MatchingPriceChangeRatio;
pub use ratio::MatchingPriceChangeRatioContext;
pub use ratio::RatioModel;
pub use ratio::AnnualizedGainPredicate;
