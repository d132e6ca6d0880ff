use levsim::AlternatingPricingStrategy;
use levsim::AnnualizedGainPredicate;
use levsim::AveragePriceChange;
use levsim::ExpenseRatio;
use levsim::Leverage;
use levsim::MatchingPriceChangeRatio;
use levsim::MatchingPriceChangeRatioContext;
use levsim::MedianPriceChange;
use levsim::Percent;
use levsim::Period;
use levsim::PriceChange;
use levsim::PriceHistory;
use levsim::PriceHistoryDescriptor;
use levsim::PriceHistoryStatisticValue;
use levsim::PriceHistoryVariants;
use levsim::PricingStrategy;
use levsim::SamplingPricingStrategy;
use levsim::StandardDeviationPriceChange;
use levsim::StandardDeviationPriceChangeContext;
use levsim::calculate_statistic;
use levsim::expense_ratio_for_leverage;
use levsim::leverage_amounts;
use levsim::periods;
use levsim::SCALE;

fn descriptor() -> PriceHistoryDescriptor {
    PriceHistoryDescriptor { leverage: Leverage::new(SCALE), period: Period::Years(1) }
}

fn change(decimal: i64) -> PriceChange {
    PriceChange::new(Percent::from_decimal(decimal))
}

#[test]
fn test_expense_ratio() {
    let no_ratio = ExpenseRatio::zero();
    let high_ratio = ExpenseRatio::new(Percent::from_percent(930_000_000), Period::Years(1));

    assert_eq!(expense_ratio_for_leverage(Leverage::new(0)), no_ratio);
    assert_eq!(expense_ratio_for_leverage(Leverage::new(500_000_000)), no_ratio);
    assert_eq!(expense_ratio_for_leverage(Leverage::new(1_000_000_000)), no_ratio);
    assert_eq!(expense_ratio_for_leverage(Leverage::new(1_500_000_000)), high_ratio);
    assert_eq!(expense_ratio_for_leverage(Leverage::new(2_000_000_000)), high_ratio);
    assert_eq!(expense_ratio_for_leverage(Leverage::new(3_000_000_000)), high_ratio);
    assert_eq!(expense_ratio_for_leverage(Leverage::new(5_000_000_000)), high_ratio);
}

#[test]
fn test_leverage_variants() {
    // The studied ladder is finer below 4x leverage and coarser above:
    // 0.1x steps up to 4x, 0.5x steps up to 5x, whole steps up to 10x.
    let mut expected = Vec::new();
    for tenth in 1..=40i64 {
        expected.push(Leverage::new(tenth * 100_000_000));
    }
    expected.push(Leverage::new(4_500_000_000));
    expected.push(Leverage::new(5_000_000_000));
    for whole in 6..=10i64 {
        expected.push(Leverage::new(whole * 1_000_000_000));
    }
    let actual = Vec::from(leverage_amounts());

    assert_eq!(expected.len(), actual.len());
    for (i, expected_item) in expected.iter().enumerate() {
        assert_eq!(Some(expected_item), actual.get(i))
    }
}

#[test]
fn leverage_equality_rounds_to_three_decimals() {
    // 2.0004x and 2.0x agree to three decimal places; 2.0006x does not.
    assert_eq!(Leverage::new(2_000_400_000), Leverage::new(2_000_000_000));
    assert_ne!(Leverage::new(2_000_600_000), Leverage::new(2_000_000_000));
    assert_eq!(Leverage::new(2_000_400_000).amount(), 2_000_400_000);
}

#[test]
fn periods_compare_by_day_count() {
    let by_years = Period::Years(2);
    let by_days = Period::Days(506);
    assert_eq!(by_years.as_days(), 506);
    assert_eq!(by_years, by_days);
    assert_eq!(by_years.partial_cmp(&by_days), Some(std::cmp::Ordering::Equal));
    assert!(Period::Years(1) < Period::Days(254));
    assert!(Period::Days(252) < Period::Years(1));
}

#[test]
fn compose_all_equals_iterated_compose() {
    let changes = vec![
        Percent::from_decimal(10_000_000),
        Percent::from_decimal(20_000_000),
        Percent::from_decimal(-5_000_000),
        Percent::from_decimal(1_234_567),
    ];
    let mut iterated = Percent::zero();
    for p in &changes {
        iterated = iterated.compose(*p);
    }
    assert_eq!(Percent::compose_all(&changes), iterated);
}

#[test]
fn compose_uses_multipliers() {
    // (1 + 0.10) * (1 + 0.20) - 1 == 0.32, exactly on the grid.
    let a = Percent::from_decimal(100_000_000);
    let b = Percent::from_decimal(200_000_000);
    assert_eq!(a.compose(b).as_decimal(), 320_000_000);
    // A negative multiplier floors at a total loss.
    let crash = Percent::from_multiplier(-5);
    assert_eq!(crash.as_decimal(), -SCALE);
}

#[test]
fn percent_unit_conversions() {
    assert_eq!(Percent::from_percent(930_000_000).as_decimal(), 9_300_000);
    assert_eq!(Percent::from_decimal(25_000_000).as_percent(), 2_500_000_000);
    assert_eq!(Percent::from_decimal(10_000_000).as_multiplier(), 1_010_000_000);
    assert_eq!(Percent::from_decimal(7).neg().as_decimal(), -7);
    let sum = Percent::from_decimal(30).plus(Percent::from_decimal(12));
    assert_eq!(sum.as_decimal(), 42);
    let diff = Percent::from_decimal(30).minus(Percent::from_decimal(12));
    assert_eq!(diff.as_decimal(), 18);
}

#[test]
fn price_change_round_trips_its_percent() {
    let percent_change = Percent::from_decimal(123_456_789);
    assert_eq!(PriceChange::from(percent_change).percent_change(), percent_change);
    let price_change = change(-20_000_000);
    assert_eq!(Percent::from(price_change), price_change.percent_change());
}

#[test]
fn annualized_return_round_trips_exact_squares() {
    // 21% over two years annualizes to exactly 10% a year, and
    // de-annualizing recovers 21% exactly.
    let two_years = Period::Days(506);
    let total = change(210_000_000);
    let annualized = total.annualized_return(two_years);
    assert_eq!(annualized.percent_change().as_decimal(), 100_000_000);
    let back = annualized.total_return(two_years);
    assert_eq!(back.percent_change().as_decimal(), 210_000_000);
}

#[test]
fn annualized_return_round_trip_tolerance() {
    // The round trip never overstates the original return and stays
    // within a few steps of the fixed-point grid.
    let period = Period::Years(5);
    let total = change(610_510_000);
    let back = total.annualized_return(period).total_return(period);
    let original = 610_510_000i64;
    let recovered = back.percent_change().as_decimal();
    assert!(recovered <= original);
    assert!(original - recovered < 100);
}

#[test]
fn expense_ratio_daily_drag() {
    // 0.93% a year over 253 trading days is a drag of 36_759
    // billionths a day.
    let ratio = ExpenseRatio::new(Percent::from_percent(930_000_000), Period::Years(1));
    assert_eq!(ratio.amount().as_decimal(), -36_759);
    assert_eq!(ratio.multiplier(), SCALE as i128 + 36_759);
    assert_eq!(ExpenseRatio::zero().amount().as_decimal(), 0);
}

#[test]
fn expense_ratio_boundary_levels() {
    let exactly_one = Leverage::new(1_000_000_000);
    let just_above_one = Leverage::new(1_000_001_000);
    assert_eq!(expense_ratio_for_leverage(exactly_one).amount().as_decimal(), 0);
    assert_eq!(expense_ratio_for_leverage(just_above_one).amount().as_decimal(), -36_759);
}

#[test]
fn alternating_strategy_compounds_two_days() {
    // The two-element dataset [-0.02, 0.0205] over a two-day period
    // compounds to (1 - 0.02) * (1 + 0.0205) - 1 = 0.00009.
    let options = vec![change(-20_000_000), change(20_500_000)];
    let strategy = AlternatingPricingStrategy::new(options);
    let history = strategy.calculate_price_history(2);
    assert_eq!(history.len(), 2);
    assert_eq!(history.get(0).percent_change().as_decimal(), -20_000_000);
    assert_eq!(history.get(1).percent_change().as_decimal(), 20_500_000);
    assert_eq!(history.total().percent_change().as_decimal(), 90_000);
}

#[test]
fn variants_at_unit_leverage_keep_the_raw_total() {
    let options = vec![change(-20_000_000), change(20_500_000)];
    let strategy = AlternatingPricingStrategy::new(options);
    let history = strategy.calculate_price_history(2);
    let variants = PriceHistoryVariants::new(history, Period::Years(5));
    let descriptors = variants.descriptors();
    let totals = variants.total_price_changes();
    assert_eq!(descriptors.len(), 47);
    assert_eq!(totals.len(), 47);
    // Index 9 is the 1.0x level: no leverage scaling, no expense drag.
    assert_eq!(descriptors[9].leverage(), Leverage::new(1_000_000_000));
    assert_eq!(descriptors[9].period(), Period::Years(5));
    assert_eq!(totals[9].percent_change().as_decimal(), 90_000);
    // Index 19 is the 2.0x level: each day doubled, then dragged.
    assert_eq!(descriptors[19].leverage(), Leverage::new(2_000_000_000));
    let dragged_day_one = Percent::from_decimal(-40_000_000)
        .compose(Percent::from_decimal(-36_759));
    let dragged_day_two = Percent::from_decimal(41_000_000)
        .compose(Percent::from_decimal(-36_759));
    let expected = dragged_day_one.compose(dragged_day_two);
    assert_eq!(totals[19].percent_change(), expected);
}

#[test]
fn sampling_strategy_draws_from_the_pool() {
    let options = vec![change(11), change(22), change(33)];
    let strategy = SamplingPricingStrategy::new(options);
    let history = strategy.calculate_price_history(60);
    assert_eq!(history.len(), 60);
    for i in 0..60 {
        let drawn = history.get(i).percent_change().as_decimal();
        assert!(drawn == 11 || drawn == 22 || drawn == 33);
    }
}

#[test]
fn median_merges_disjoint_sorted_runs() {
    let d = descriptor();
    let a1 = MedianPriceChange::new(change(10), &d, None);
    let a2 = MedianPriceChange::new(change(30), &d, None);
    let run_a = MedianPriceChange::reduce(a1, a2, None);
    let b1 = MedianPriceChange::new(change(20), &d, None);
    let merged = MedianPriceChange::reduce(run_a, b1, None);
    assert_eq!(merged.min().percent_change().as_decimal(), 10);
    assert_eq!(merged.median().percent_change().as_decimal(), 20);
    assert_eq!(merged.max().percent_change().as_decimal(), 30);
}

#[test]
fn median_merge_order_does_not_change_values() {
    let d = descriptor();
    let samples = [50, -10, 40, 0, 20];
    let mut left: Option<MedianPriceChange> = None;
    for s in samples {
        let one = MedianPriceChange::new(change(s), &d, None);
        left = Some(match left {
            Some(acc) => MedianPriceChange::reduce(acc, one, None),
            None => one,
        });
    }
    let left = left.unwrap();
    // The same samples, grouped the other way around.
    let pair_a = MedianPriceChange::reduce(
        MedianPriceChange::new(change(50), &d, None),
        MedianPriceChange::new(change(-10), &d, None),
        None,
    );
    let pair_b = MedianPriceChange::reduce(
        MedianPriceChange::new(change(40), &d, None),
        MedianPriceChange::reduce(
            MedianPriceChange::new(change(0), &d, None),
            MedianPriceChange::new(change(20), &d, None),
            None,
        ),
        None,
    );
    let right = MedianPriceChange::reduce(pair_a, pair_b, None);
    assert_eq!(left.min().percent_change(), right.min().percent_change());
    assert_eq!(left.median().percent_change(), right.median().percent_change());
    assert_eq!(left.max().percent_change(), right.max().percent_change());
}

#[test]
fn median_even_count_averages_the_middle() {
    let d = descriptor();
    let first = MedianPriceChange::new(change(10), &d, None);
    let second = MedianPriceChange::new(change(21), &d, None);
    let merged = MedianPriceChange::reduce(first, second, None);
    // Halves away from zero: (10 + 21) / 2 rounds to 16.
    assert_eq!(merged.median().percent_change().as_decimal(), 16);
}

#[test]
fn percentile_ladder_reads_the_sorted_samples() {
    let d = descriptor();
    let samples = [-50_000_000, -10_000_000, 0, 20_000_000, 100_000_000];
    let mut acc: Option<MedianPriceChange> = None;
    for s in samples {
        let one = MedianPriceChange::new(change(s), &d, None);
        acc = Some(match acc {
            Some(a) => MedianPriceChange::reduce(a, one, None),
            None => one,
        });
    }
    let acc = acc.unwrap();
    assert_eq!(
        acc.percentile(Percent::from_decimal(0)).percent_change().as_decimal(),
        -50_000_000
    );
    assert_eq!(acc.median().percent_change().as_decimal(), 0);
    assert_eq!(acc.max().percent_change().as_decimal(), 100_000_000);
    assert_eq!(
        acc.percentile(Percent::from_decimal(999_999_999)).percent_change().as_decimal(),
        100_000_000
    );
    let iqr = acc.inner_quartile_range();
    // Quartiles sit at floor(0.25 * 5) = 1 and floor(0.75 * 5) = 3.
    assert_eq!(iqr.percent_change().as_decimal(), 20_000_000 - (-10_000_000));
}

#[test]
fn matching_ratio_counts_one_in_four() {
    let d = descriptor();
    let predicate = AnnualizedGainPredicate {
        period: Period::Years(1),
        threshold: Percent::zero(),
    };
    let context = MatchingPriceChangeRatioContext::new(predicate);
    let ctx = Some(&context);
    let samples = [10_000_000, -10_000_000, -20_000_000, -30_000_000];
    let mut acc: Option<MatchingPriceChangeRatio<AnnualizedGainPredicate>> = None;
    for s in samples {
        let one = MatchingPriceChangeRatio::new(change(s), &d, ctx);
        acc = Some(match acc {
            Some(a) => MatchingPriceChangeRatio::reduce(a, one, ctx),
            None => one,
        });
    }
    let acc = acc.unwrap();
    assert_eq!(acc.success_percent().as_decimal(), 250_000_000);
    assert_eq!(acc.failure_percent().as_decimal(), 750_000_000);
}

#[test]
fn standard_deviation_of_symmetric_samples() {
    let d = descriptor();
    let mean = StandardDeviationPriceChangeContext::new(change(200));
    let ctx = Some(&mean);
    let low = StandardDeviationPriceChange::new(change(100), &d, ctx);
    let high = StandardDeviationPriceChange::new(change(300), &d, ctx);
    let acc = StandardDeviationPriceChange::reduce(low, high, ctx);
    assert_eq!(acc.stdev().percent_change().as_decimal(), 100);
}

#[test]
fn average_reduction_is_associative() {
    let d = descriptor();
    let a = AveragePriceChange::new(change(10_000_000), &d, None);
    let b = AveragePriceChange::new(change(20_000_000), &d, None);
    let c = AveragePriceChange::new(change(-5_000_000), &d, None);
    let left = AveragePriceChange::reduce(AveragePriceChange::reduce(a, b, None), c, None);
    let right = AveragePriceChange::reduce(a, AveragePriceChange::reduce(b, c, None), None);
    assert_eq!(left.average().percent_change(), right.average().percent_change());
    assert_eq!(
        left.annualized_average().percent_change(),
        right.annualized_average().percent_change()
    );
    // 10% + 20% - 5% over three samples averages 8.333...%, rounded.
    assert_eq!(left.average().percent_change().as_decimal(), 8_333_333);
}

#[test]
fn calculate_statistic_averages_across_paths() {
    let options_a = vec![change(10_000_000)];
    let options_b = vec![change(30_000_000)];
    let period = Period::Years(5);
    let days = period.as_days();
    let path_a = AlternatingPricingStrategy::new(options_a).calculate_price_history(days);
    let path_b = AlternatingPricingStrategy::new(options_b).calculate_price_history(days);
    let total_a = path_a.total().percent_change().as_decimal();
    let total_b = path_b.total().percent_change().as_decimal();
    let variants = vec![
        PriceHistoryVariants::new(path_a, period),
        PriceHistoryVariants::new(path_b, period),
    ];
    let averages: Vec<_> = calculate_statistic::<AveragePriceChange>(&variants, None);
    assert_eq!(averages.len(), 47);
    let at_one = &averages[9];
    assert_eq!(at_one.descriptor().leverage(), Leverage::new(1_000_000_000));
    let expected = Percent::from_decimal(((total_a as i128 + total_b as i128 + 1) / 2) as i64);
    assert_eq!(at_one.statistic().average().percent_change(), expected);
}

#[test]
fn calculate_statistic_medians_across_paths() {
    let period = Period::Years(5);
    let mut variants = Vec::new();
    for decimal in [5_000i64, -3_000, 1_000] {
        let mut history = PriceHistory::new();
        history.add(change(decimal));
        variants.push(PriceHistoryVariants::new(history, period));
    }
    let medians: Vec<_> = calculate_statistic::<MedianPriceChange>(&variants, None);
    assert_eq!(medians.len(), 47);
    let at_one = medians[9].statistic();
    assert_eq!(at_one.min().percent_change().as_decimal(), -3_000);
    assert_eq!(at_one.median().percent_change().as_decimal(), 1_000);
    assert_eq!(at_one.max().percent_change().as_decimal(), 5_000);
}

#[test]
fn calculate_statistic_two_phase_standard_deviation() {
    let period = Period::Years(5);
    let mut variants = Vec::new();
    for decimal in [100i64, 300] {
        let mut history = PriceHistory::new();
        history.add(change(decimal));
        variants.push(PriceHistoryVariants::new(history, period));
    }
    let averages: Vec<_> = calculate_statistic::<AveragePriceChange>(&variants, None);
    let context: Vec<StandardDeviationPriceChangeContext> = averages
        .iter()
        .map(|value| StandardDeviationPriceChangeContext::new(value.statistic().average()))
        .collect();
    let stdevs: Vec<_> =
        calculate_statistic::<StandardDeviationPriceChange>(&variants, Some(&context));
    assert_eq!(stdevs.len(), 47);
    // At 1.0x the samples are 100 and 300 with mean 200: the deviation
    // is exactly 100 billionths.
    assert_eq!(averages[9].statistic().average().percent_change().as_decimal(), 200);
    assert_eq!(stdevs[9].statistic().stdev().percent_change().as_decimal(), 100);
}

#[test]
fn annualized_average_over_one_year_is_the_raw_average() {
    let d = PriceHistoryDescriptor {
        leverage: Leverage::new(SCALE),
        period: Period::Years(1),
    };
    let a = AveragePriceChange::new(change(10_000_000), &d, None);
    let b = AveragePriceChange::new(change(20_000_000), &d, None);
    let acc = AveragePriceChange::reduce(a, b, None);
    assert_eq!(
        acc.annualized_average().percent_change(),
        acc.average().percent_change()
    );
}

#[test]
fn calculate_statistic_over_a_single_path() {
    let mut history = PriceHistory::new();
    history.add(change(7_000));
    let variants = vec![PriceHistoryVariants::new(history, Period::Years(5))];
    let medians: Vec<_> = calculate_statistic::<MedianPriceChange>(&variants, None);
    assert_eq!(medians.len(), 47);
    assert_eq!(medians[9].statistic().median().percent_change().as_decimal(), 7_000);
}

#[test]
fn identity_accumulators_are_neutral() {
    let d = descriptor();
    let one = AveragePriceChange::new(change(10_000_000), &d, None);
    let padded = AveragePriceChange::reduce(AveragePriceChange::identity(), one, None);
    assert_eq!(
        padded.average().percent_change(),
        one.average().percent_change()
    );
    let sample = MedianPriceChange::new(change(42), &d, None);
    let merged = MedianPriceChange::reduce(MedianPriceChange::identity(), sample, None);
    assert_eq!(merged.min().percent_change().as_decimal(), 42);
    assert_eq!(merged.max().percent_change().as_decimal(), 42);
}

#[test]
fn study_periods_are_years() {
    let all = periods();
    assert_eq!(all.len(), 6);
    assert_eq!(all[0], Period::Years(5));
    assert_eq!(all[5], Period::Years(30));
    assert_eq!(all[0].as_days(), 1265);
}
