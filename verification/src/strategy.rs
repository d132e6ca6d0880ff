//! Price-path simulation strategies.

use vstd::prelude::*;
use crate::price_change::PriceChange;
use crate::price_history::PriceHistory;

verus! {

/// A source of simulated daily price changes. `change_ok` is each
/// implementation's claim about any change it can produce for a given
/// day; `calculate_price_history` builds a whole path one day at a
/// time, handing each call the history accumulated so far, so that
/// path-dependent strategies remain possible.
pub trait PricingStrategy: Sized {
    /// Whether the strategy is usable at all (a strategy drawing from
    /// an empty pool is invalid input and may not be constructed).
    spec fn strategy_wf(&self) -> bool;

    /// What the strategy can return for the given day and accumulated
    /// history.
    spec fn change_ok(&self, day: int, so_far: Seq<PriceChange>, result: PriceChange) -> bool;

    fn calculate_price_change(&self, period: u64, price_history: &PriceHistory) -> (r:
        PriceChange)
        requires
            self.strategy_wf(),
        ensures
            self.change_ok(period as int, price_history@, r),
    ;

    /// One whole simulated path: one change per day, in day order, each
    /// drawn with the history so far in hand.
    fn calculate_price_history(&self, days: u64) -> (r: PriceHistory)
        requires
            self.strategy_wf(),
        ensures
            r@.len() == days,
            forall|i: int|
                0 <= i < days ==> self.change_ok(i, r@.subrange(0, i), #[trigger] r@[i]),
    {
        let mut price_history = PriceHistory::new();
        let mut day: u64 = 0;
        while day < days
            invariant
                0 <= day <= days,
                self.strategy_wf(),
                price_history@.len() == day,
                forall|i: int|
                    0 <= i < day ==> self.change_ok(
                        i,
                        price_history@.subrange(0, i),
                        #[trigger] price_history@[i],
                    ),
            decreases days - day,
        {
            let ghost before = price_history@;
            let change = self.calculate_price_change(day, &price_history);
            price_history.add(change);
            proof {
                assert forall|i: int| 0 <= i < day + 1 implies self.change_ok(
                    i,
                    price_history@.subrange(0, i),
                    #[trigger] price_history@[i],
                ) by {
                    assert(price_history@.subrange(0, i) =~= before.subrange(0, i));
                    if i < day {
                        assert(price_history@[i] == before[i]);
                    } else {
                        assert(before.subrange(0, i) =~= before);
                    }
                };
            }
            day = day + 1;
        }
        price_history
    }
}

/// Deterministically cycles through the fixed pool in day order; meant
/// for reproducible runs, not production sampling.
#[derive(Debug, Clone)]
pub struct AlternatingPricingStrategy {
    price_change_options: Vec<PriceChange>,
}

impl AlternatingPricingStrategy {
    /// The fixed pool the strategy cycles through.
    pub closed spec fn options_spec(&self) -> Seq<PriceChange> {
        self.price_change_options@
    }

    /// A strategy over a fixed pool of historical daily changes; an
    /// empty pool is invalid input.
    pub fn new(price_change_options: Vec<PriceChange>) -> (r: AlternatingPricingStrategy)
        requires
            price_change_options@.len() > 0,
        ensures
            r.options_spec() == price_change_options@,
            r.strategy_wf(),
    {
        AlternatingPricingStrategy { price_change_options }
    }
}

impl PricingStrategy for AlternatingPricingStrategy {
    open spec fn strategy_wf(&self) -> bool {
        self.options_spec().len() > 0
    }

    open spec fn change_ok(&self, day: int, so_far: Seq<PriceChange>, result: PriceChange) -> bool {
        result == self.options_spec()[day % self.options_spec().len() as int]
    }

    fn calculate_price_change(&self, period: u64, _price_history: &PriceHistory) -> (r:
        PriceChange) {
        let len = self.price_change_options.len();
        let choice: usize = (period % (len as u64)) as usize;
        self.price_change_options[choice]
    }
}

/// Draws one change independently and uniformly at random, with
/// replacement, from the fixed pool, for every simulated day.
#[derive(Debug, Clone)]
pub struct SamplingPricingStrategy {
    price_change_options: Vec<PriceChange>,
}

/// Relies on `rand::thread_rng` and `rand::Rng::gen_range`: a value
/// drawn from the half-open range `0..len`, which is strictly below
/// `len`; `gen_range` panics only on an empty range, which `len >= 1`
/// rules out.
#[verifier::external_body]
fn sample_index(len: usize) -> (r: usize)
    requires
        len >= 1,
    ensures
        r < len,
{
    rand::Rng::gen_range(&mut rand::thread_rng(), 0..len)
}

impl SamplingPricingStrategy {
    /// The fixed pool the strategy samples from.
    pub closed spec fn options_spec(&self) -> Seq<PriceChange> {
        self.price_change_options@
    }

    /// A strategy over a fixed pool of historical daily changes; an
    /// empty pool is invalid input.
    pub fn new(price_change_options: Vec<PriceChange>) -> (r: SamplingPricingStrategy)
        requires
            price_change_options@.len() > 0,
        ensures
            r.options_spec() == price_change_options@,
            r.strategy_wf(),
    {
        SamplingPricingStrategy { price_change_options }
    }
}

impl PricingStrategy for SamplingPricingStrategy {
    open spec fn strategy_wf(&self) -> bool {
        self.options_spec().len() > 0
    }

    open spec fn change_ok(&self, day: int, so_far: Seq<PriceChange>, result: PriceChange) -> bool {
        self.options_spec().contains(result)
    }

    fn calculate_price_change(&self, _period: u64, _price_history: &PriceHistory) -> (r:
        PriceChange) {
        let choice = sample_index(self.price_change_options.len());
        let r = self.price_change_options[choice];
        proof {
            assert(self.options_spec().contains(r));
        }
        r
    }
}

} // verus!
