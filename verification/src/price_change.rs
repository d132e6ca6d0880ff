//! A percent change tagged as the return over an implicit interval,
//! with annualization between daily and total returns.

use vstd::prelude::*;
use vstd::std_specs::convert::FromSpec;
use crate::fixed::SCALE;
use crate::fixed::fixpow;
use crate::fixed::gcd;
use crate::fixed::gcd_exec;
use crate::fixed::fixpow_exec;
use crate::fixed::fixroot;
use crate::fixed::clamp_i64_exec;
use crate::fixed::lemma_gcd_bounds;
use crate::percent::Percent;
use crate::percent::multiplier_of;
use crate::percent::compose_decimals;
use crate::percent::compose_all_decimals;
use crate::period::Period;
use crate::period::MARKET_DAYS_PER_YEAR;

verus! {

/// A `Percent` understood as the price change over some interval: one
/// simulated day, a whole holding period, or one year when annualized.
#[derive(Debug, Clone, Copy, PartialEq, Eq, Structural)]
pub struct PriceChange {
    percent_change: Percent,
}

impl View for PriceChange {
    type V = int;

    closed spec fn view(&self) -> int {
        self.percent_change@
    }
}

/// The view of each element of a sequence of price changes.
pub open spec fn changes_of(s: Seq<PriceChange>) -> Seq<int> {
    s.map_values(|pc: PriceChange| pc@)
}

/// The multiplier of a change, capped at the largest fixed-point
/// multiplier; changes near the top of the representable range lose the
/// part that no multiplier can carry.
pub open spec fn capped_multiplier(decimal: int) -> int {
    if multiplier_of(decimal) > i64::MAX {
        i64::MAX as int
    } else {
        multiplier_of(decimal)
    }
}

/// What raising a capped multiplier `m` to the rational power `p / q`
/// returns: the result multiplier `r` is the largest fixed-point value
/// whose `q`-th power does not exceed the `p`-th power of `m`.
/// Monotonicity of `fixpow` makes the `r` this describes unique.
pub open spec fn pow_root_brackets(m: int, p: nat, q: nat, r: int) -> bool {
    let t = fixpow(m, p);
    &&& 0 <= r <= i64::MAX
    &&& fixpow(r, q) <= t
    &&& (r < i64::MAX ==> t < fixpow(r + 1, q))
}

/// The unique multiplier the brackets describe.
pub open spec fn pow_root_value(m: int, p: nat, q: nat) -> int {
    choose|r: int| pow_root_brackets(m, p, q, r)
}

/// Only one multiplier satisfies the brackets.
pub proof fn lemma_pow_root_unique(m: int, p: nat, q: nat, r1: int, r2: int)
    requires
        0 <= m,
        q >= 1,
        pow_root_brackets(m, p, q, r1),
        pow_root_brackets(m, p, q, r2),
    ensures
        r1 == r2,
{
    if r1 < r2 {
        crate::fixed::lemma_fixpow_mono(r1 + 1, r2, q);
    }
    if r2 < r1 {
        crate::fixed::lemma_fixpow_mono(r2 + 1, r1, q);
    }
}

/// Between any bracketing bounds there lies an exactly bracketed root.
proof fn lemma_pow_root_between(t: int, q: nat, lo: int, hi: int)
    requires
        q >= 1,
        0 <= lo < hi,
        fixpow(lo, q) <= t,
        t < fixpow(hi, q),
    ensures
        exists|r: int|
            lo <= r < hi && #[trigger] fixpow(r, q) <= t && t < fixpow(r + 1, q),
    decreases hi - lo,
{
    if hi == lo + 1 {
        assert(fixpow(lo, q) <= t && t < fixpow(lo + 1, q));
    } else {
        let mid = lo + (hi - lo) / 2;
        if fixpow(mid, q) <= t {
            lemma_pow_root_between(t, q, mid, hi);
        } else {
            lemma_pow_root_between(t, q, lo, mid);
        }
    }
}

/// The root the brackets describe exists, so `pow_root_value` itself
/// satisfies them.
pub proof fn lemma_pow_root_exists(m: int, p: nat, q: nat)
    requires
        0 <= m,
        q >= 1,
    ensures
        pow_root_brackets(m, p, q, pow_root_value(m, p, q)),
{
    let t = fixpow(m, p);
    crate::fixed::lemma_fixpow_bounds(m, p);
    crate::fixed::lemma_fixpow_zero_base(q);
    crate::fixed::lemma_fixpow_bounds(i64::MAX as int, q);
    if fixpow(i64::MAX as int, q) <= t {
        assert(pow_root_brackets(m, p, q, i64::MAX as int));
    } else {
        lemma_pow_root_between(t, q, 0, i64::MAX as int);
        let r = choose|r: int|
            0 <= r < i64::MAX && #[trigger] fixpow(r, q) <= t && t < fixpow(r + 1, q);
        assert(pow_root_brackets(m, p, q, r));
    }
}

/// The decimal of the annualized return of a total change `d` held for
/// `days` days.
pub open spec fn annualized_decimal(d: int, days: int) -> int {
    let g = exponent_gcd(MARKET_DAYS_PER_YEAR as int, days);
    pow_root_value(
        capped_multiplier(d),
        (MARKET_DAYS_PER_YEAR as int / g as int) as nat,
        (days / g as int) as nat,
    ) - SCALE
}

/// The decimal of the total return over `days` days of an annualized
/// change `d`.
pub open spec fn total_return_decimal(d: int, days: int) -> int {
    let g = exponent_gcd(days, MARKET_DAYS_PER_YEAR as int);
    pow_root_value(
        capped_multiplier(d),
        (days / g as int) as nat,
        (MARKET_DAYS_PER_YEAR as int / g as int) as nat,
    ) - SCALE
}

/// The common divisor by which an exponent `num / den` is reduced
/// before fixed-point powers are taken.
pub open spec fn exponent_gcd(num: int, den: int) -> nat {
    gcd(num as nat, den as nat)
}

impl PriceChange {
    pub fn new(percent_change: Percent) -> (r: PriceChange)
        ensures
            r@ == percent_change@,
    {
        PriceChange { percent_change }
    }

    /// The neutral change: no gain, no loss.
    pub fn zero() -> (r: PriceChange)
        ensures
            r@ == 0,
    {
        PriceChange { percent_change: Percent::zero() }
    }

    /// A change that wipes the position out entirely.
    pub fn total_loss() -> (r: PriceChange)
        ensures
            r@ == -(SCALE as int),
    {
        PriceChange { percent_change: Percent::from_decimal(-SCALE) }
    }

    pub fn percent_change(&self) -> (r: Percent)
        ensures
            r == self.percent_spec(),
            r@ == self@,
    {
        self.percent_change
    }

    /// The percent value of this change, as a spec-level field.
    pub closed spec fn percent_spec(&self) -> Percent {
        self.percent_change
    }

    /// The annualized return implied by this total return over the
    /// given period: the multiplier raised to the power of one over the
    /// period's length in years.
    pub fn annualized_return(&self, period: Period) -> (r: PriceChange)
        requires
            self@ >= -SCALE,
            period.days_spec() > 0,
        ensures
            ({
                let g = exponent_gcd(MARKET_DAYS_PER_YEAR as int, period.days_spec());
                pow_root_brackets(
                    capped_multiplier(self@),
                    (MARKET_DAYS_PER_YEAR as int / g as int) as nat,
                    (period.days_spec() / g as int) as nat,
                    multiplier_of(r@),
                )
            }),
            r@ == annualized_decimal(self@, period.days_spec()),
            r@ >= -SCALE,
    {
        let days = period.as_days();
        let g = gcd_exec(MARKET_DAYS_PER_YEAR, days);
        proof {
            lemma_gcd_bounds(MARKET_DAYS_PER_YEAR as nat, days as nat);
            vstd::arithmetic::div_mod::lemma_div_is_ordered(
                g as int,
                days as int,
                g as int,
            );
            vstd::arithmetic::div_mod::lemma_div_by_self(g as int);
            vstd::arithmetic::div_mod::lemma_div_pos_is_pos(days as int, g as int);
        }
        let p: u64 = MARKET_DAYS_PER_YEAR / g;
        let q: u64 = days / g;
        self.pow_by(p, q)
    }

    /// The total return over the given period implied by this
    /// annualized return: the multiplier raised to the power of the
    /// period's length in years.
    pub fn total_return(&self, period: Period) -> (r: PriceChange)
        requires
            self@ >= -SCALE,
            period.days_spec() > 0,
        ensures
            ({
                let g = exponent_gcd(period.days_spec(), MARKET_DAYS_PER_YEAR as int);
                pow_root_brackets(
                    capped_multiplier(self@),
                    (period.days_spec() / g as int) as nat,
                    (MARKET_DAYS_PER_YEAR as int / g as int) as nat,
                    multiplier_of(r@),
                )
            }),
            r@ == total_return_decimal(self@, period.days_spec()),
            r@ >= -SCALE,
    {
        let days = period.as_days();
        let g = gcd_exec(days, MARKET_DAYS_PER_YEAR);
        proof {
            lemma_gcd_bounds(days as nat, MARKET_DAYS_PER_YEAR as nat);
            vstd::arithmetic::div_mod::lemma_div_is_ordered(
                g as int,
                MARKET_DAYS_PER_YEAR as int,
                g as int,
            );
            vstd::arithmetic::div_mod::lemma_div_by_self(g as int);
            vstd::arithmetic::div_mod::lemma_div_pos_is_pos(days as int, g as int);
        }
        let p: u64 = days / g;
        let q: u64 = MARKET_DAYS_PER_YEAR / g;
        self.pow_by(p, q)
    }

    /// Raises the capped multiplier of this change to the rational
    /// power `p / q`.
    fn pow_by(&self, p: u64, q: u64) -> (r: PriceChange)
        requires
            self@ >= -SCALE,
            q >= 1,
        ensures
            pow_root_brackets(capped_multiplier(self@), p as nat, q as nat, multiplier_of(r@)),
            multiplier_of(r@) == pow_root_value(capped_multiplier(self@), p as nat, q as nat),
            r@ >= -SCALE,
    {
        let wide: i128 = self.percent_change.as_multiplier();
        let m: i64 = clamp_i64_exec(wide);
        let t: i64 = fixpow_exec(m, p);
        let root: i64 = fixroot(t, q);
        proof {
            let chosen = pow_root_value(m as int, p as nat, q as nat);
            assert(pow_root_brackets(m as int, p as nat, q as nat, root as int));
            assert(pow_root_brackets(m as int, p as nat, q as nat, chosen));
            lemma_pow_root_unique(m as int, p as nat, q as nat, root as int, chosen);
        }
        PriceChange { percent_change: Percent::from_multiplier(root) }
    }

    /// Chains this change with a subsequent one multiplicatively.
    pub fn compose(&self, other: PriceChange) -> (r: PriceChange)
        ensures
            r@ == compose_decimals(self@, other@),
    {
        PriceChange { percent_change: self.percent_change.compose(other.percent_change) }
    }

    /// Chains every change of the sequence, in order.
    pub fn compose_all(price_changes: &Vec<PriceChange>) -> (r: PriceChange)
        ensures
            r@ == compose_all_decimals(changes_of(price_changes@)),
    {
        let ghost all = changes_of(price_changes@);
        let mut acc = PriceChange::zero();
        let mut i: usize = 0;
        proof {
            assert(all.subrange(0, 0) =~= Seq::<int>::empty());
        }
        while i < price_changes.len()
            invariant
                0 <= i <= price_changes.len(),
                all == changes_of(price_changes@),
                all.len() == price_changes@.len(),
                acc@ == compose_all_decimals(all.subrange(0, i as int)),
            decreases price_changes.len() - i,
        {
            acc = acc.compose(price_changes[i]);
            proof {
                assert(all.subrange(0, i + 1).drop_last() =~= all.subrange(0, i as int));
                assert(all.subrange(0, i + 1).last() == price_changes@[i as int]@);
            }
            i = i + 1;
        }
        proof {
            assert(all.subrange(0, price_changes@.len() as int) =~= all);
        }
        acc
    }
}

impl From<Percent> for PriceChange {
    fn from(percent: Percent) -> (r: PriceChange) {
        PriceChange { percent_change: percent }
    }
}

impl vstd::std_specs::convert::FromSpecImpl<Percent> for PriceChange {
    open spec fn obeys_from_spec() -> bool {
        true
    }

    closed spec fn from_spec(percent: Percent) -> PriceChange {
        PriceChange { percent_change: percent }
    }
}

impl From<PriceChange> for Percent {
    fn from(price_change: PriceChange) -> (r: Percent) {
        price_change.percent_change
    }
}

impl vstd::std_specs::convert::FromSpecImpl<PriceChange> for Percent {
    open spec fn obeys_from_spec() -> bool {
        true
    }

    closed spec fn from_spec(price_change: PriceChange) -> Percent {
        price_change.percent_spec()
    }
}

/// Wrapping a percent change and reading it back returns the same
/// percent, and the same holds the other way around.
pub proof fn lemma_percent_round_trip(percent: Percent, price_change: PriceChange)
    ensures
        PriceChange::from_spec(percent).percent_spec() == percent,
        PriceChange::from_spec(percent)@ == percent@,
        Percent::from_spec(price_change) == price_change.percent_spec(),
        Percent::from_spec(price_change)@ == price_change@,
{
}

/// The change whose view is the given decimal (as far as the decimal
/// is representable).
pub closed spec fn change_of_decimal(decimal: int) -> PriceChange {
    PriceChange { percent_change: crate::percent::percent_of_decimal(decimal) }
}

pub broadcast proof fn lemma_change_of_decimal(decimal: int)
    ensures
        i64::MIN <= decimal <= i64::MAX ==> (#[trigger] change_of_decimal(decimal))@ == decimal,
{
    crate::percent::lemma_percent_of_decimal(decimal);
}

/// The view of a change lies in the range of its representation.
pub broadcast proof fn lemma_price_change_view_bounds(pc: PriceChange)
    ensures
        i64::MIN <= #[trigger] pc@ <= i64::MAX,
{
    crate::percent::lemma_percent_view_bounds(pc.percent_change);
}

/// Two changes with the same view are the same change.
pub proof fn lemma_price_change_view_injective(a: PriceChange, b: PriceChange)
    requires
        a@ == b@,
    ensures
        a == b,
{
    crate::percent::lemma_percent_view_injective(a.percent_spec(), b.percent_spec());
}

/// Annualizing a total return over a whole number of years, and then
/// de-annualizing the result over the same period, never overstates the
/// original return; and the very next representable annualized
/// multiplier would overstate it. `m` is the capped multiplier of the
/// original change, `r` of the annualized one, and `s` of the
/// round-tripped one.
pub proof fn lemma_annualize_total_round_trip(m: int, years: nat, r: int, s: int)
    requires
        0 <= m <= i64::MAX,
        s <= i64::MAX,
        years >= 1,
        pow_root_brackets(m, 1, years, r),
        pow_root_brackets(r, years, 1, s),
    ensures
        s == fixpow(r, years),
        s <= m,
        r < i64::MAX ==> m < fixpow(r + 1, years),
{
    crate::fixed::lemma_fixpow_one(m);
    crate::fixed::lemma_fixpow_bounds(r, years);
    crate::fixed::lemma_fixpow_one(fixpow(r, years));
    if s < i64::MAX {
        crate::fixed::lemma_fixpow_one(s);
        crate::fixed::lemma_fixpow_one(s + 1);
    } else {
        crate::fixed::lemma_fixpow_one(s);
    }
}

/// Annualizing a total return over a whole number of years and then
/// de-annualizing it over the same period recovers a return that never
/// overstates the original, within the resolution of the fixed-point
/// root: the very next annualized multiplier would overstate it.
pub proof fn lemma_annualize_total_round_trip_years(d: int, y: nat)
    requires
        -SCALE <= d <= i64::MAX,
        y >= 1,
    ensures
        ({
            let days = y * MARKET_DAYS_PER_YEAR as int;
            &&& total_return_decimal(annualized_decimal(d, days), days) <= d
            &&& (multiplier_of(annualized_decimal(d, days)) < i64::MAX ==> capped_multiplier(d)
                < fixpow(multiplier_of(annualized_decimal(d, days)) + 1, y))
        }),
{
    let days = y * MARKET_DAYS_PER_YEAR as int;
    lemma_years_exponent(y);
    let g = exponent_gcd(MARKET_DAYS_PER_YEAR as int, days);
    let g2 = exponent_gcd(days, MARKET_DAYS_PER_YEAR as int);
    assert(days == y * (MARKET_DAYS_PER_YEAR as int));
    assert((days / (MARKET_DAYS_PER_YEAR as int)) == y) by {
        vstd::arithmetic::div_mod::lemma_div_by_multiple(
            y as int,
            MARKET_DAYS_PER_YEAR as int,
        );
        vstd::arithmetic::mul::lemma_mul_is_commutative(y as int, MARKET_DAYS_PER_YEAR as int);
    };
    let m = capped_multiplier(d);
    lemma_pow_root_exists(m, 1, y);
    let r = pow_root_value(m, 1, y);
    assert(annualized_decimal(d, days) == r - SCALE);
    assert(capped_multiplier(r - SCALE) == r);
    lemma_pow_root_exists(r, y, 1);
    let s = pow_root_value(r, y, 1);
    assert(total_return_decimal(r - SCALE, days) == s - SCALE);
    lemma_annualize_total_round_trip(m, y, r, s);
}

/// Over a period of `years` whole years, the exponent of an
/// annualization reduces to `1 / years`, and of a de-annualization to
/// `years / 1`.
pub proof fn lemma_years_exponent(years: nat)
    requires
        years >= 1,
    ensures
        exponent_gcd(MARKET_DAYS_PER_YEAR as int, years * MARKET_DAYS_PER_YEAR as int)
            == MARKET_DAYS_PER_YEAR as nat,
        exponent_gcd(years * MARKET_DAYS_PER_YEAR as int, MARKET_DAYS_PER_YEAR as int)
            == MARKET_DAYS_PER_YEAR as nat,
{
    let d = MARKET_DAYS_PER_YEAR as int;
    let n = years * d;
    assert(n >= d) by {
        vstd::arithmetic::mul::lemma_mul_inequality(1, years as int, d);
    };
    assert(n % d == 0) by {
        vstd::arithmetic::div_mod::lemma_mod_multiples_basic(years as int, d);
    };
    if n == d {
        assert(d % n == 0);
        assert(gcd(d as nat, n as nat) == gcd(n as nat, (d % n) as nat));
        assert(gcd(n as nat, 0nat) == n as nat);
    } else {
        assert(d % n == d) by {
            vstd::arithmetic::div_mod::lemma_small_mod(d as nat, n as nat);
        };
        assert(gcd(d as nat, n as nat) == gcd(n as nat, d as nat));
        assert(gcd(n as nat, d as nat) == gcd(d as nat, (n % d) as nat));
        assert(gcd(d as nat, 0nat) == d as nat);
    }
    assert(gcd(n as nat, d as nat) == gcd(d as nat, (n % d) as nat));
    assert(gcd(d as nat, 0nat) == d as nat);
}

} // verus!
