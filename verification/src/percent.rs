//! The dimensionless fractional change at the bottom of every price
//! computation.

use vstd::prelude::*;
use crate::fixed::SCALE;
use crate::fixed::div_round;
use crate::fixed::clamp_i64;
use crate::fixed::clamp_i64_exec;
use crate::fixed::div_round_i128;
use crate::fixed::lemma_mul_abs_bound;

verus! {

/// A fractional change stored as a fixed-point decimal: `SCALE` units
/// are a change of 1.0 (that is, 100%), so 10_000_000 units are 1%.
#[derive(Debug, Clone, Copy, PartialEq, Eq, Structural)]
pub struct Percent {
    decimal: i64,
}

impl View for Percent {
    type V = int;

    closed spec fn view(&self) -> int {
        self.decimal as int
    }
}

/// The implied multiplier of a decimal change: `1 + change`, in units of
/// `SCALE`.
pub open spec fn multiplier_of(decimal: int) -> int {
    decimal + SCALE
}

/// The decimal change implied by a multiplier. A negative multiplier
/// means the position is more than wiped out, which floors at a total
/// loss; at the top the decimal saturates at the largest representable
/// value.
pub open spec fn decimal_of_multiplier(m: int) -> int {
    if m < 0 {
        -(SCALE as int)
    } else if m - SCALE > i64::MAX {
        i64::MAX as int
    } else {
        m - SCALE
    }
}

/// Multiplicative composition of two sequential decimal changes: the
/// product of their multipliers, rounded back to the fixed-point grid.
pub open spec fn compose_decimals(a: int, b: int) -> int {
    decimal_of_multiplier(div_round(multiplier_of(a) * multiplier_of(b), SCALE as int))
}

/// Composition of a whole sequence of decimal changes, in order: the
/// left fold of `compose_decimals` starting from the neutral change 0.
pub open spec fn compose_all_decimals(s: Seq<int>) -> int
    decreases s.len(),
{
    if s.len() == 0 {
        0
    } else {
        compose_decimals(compose_all_decimals(s.drop_last()), s.last())
    }
}

/// The view of each element of a sequence of `Percent` values.
pub open spec fn decimals_of(s: Seq<Percent>) -> Seq<int> {
    s.map_values(|p: Percent| p@)
}

impl Percent {
    /// The neutral change: 0%.
    pub fn zero() -> (r: Percent)
        ensures
            r@ == 0,
    {
        Percent { decimal: 0 }
    }

    /// A change given in percentage points, scaled by `SCALE`:
    /// `from_percent(SCALE)` is a change of 1%.
    pub fn from_percent(percentage: i64) -> (r: Percent)
        ensures
            r@ == div_round(percentage as int, 100),
    {
        Percent { decimal: div_round_i128(percentage as i128, 100) as i64 }
    }

    /// A change given directly as a fixed-point decimal.
    pub fn from_decimal(decimal: i64) -> (r: Percent)
        ensures
            r@ == decimal,
    {
        Percent { decimal }
    }

    /// A change given as a fixed-point multiplier (`SCALE` meaning no
    /// change). Negative multipliers floor at a total loss.
    pub fn from_multiplier(multiplier: i64) -> (r: Percent)
        ensures
            r@ == decimal_of_multiplier(multiplier as int),
    {
        if multiplier < 0 {
            Percent { decimal: -SCALE }
        } else {
            Percent { decimal: multiplier - SCALE }
        }
    }

    pub(crate) fn from_multiplier_wide(multiplier: i128) -> (r: Percent)
        ensures
            r@ == decimal_of_multiplier(multiplier as int),
    {
        if multiplier < 0 {
            Percent { decimal: -SCALE }
        } else if multiplier - (SCALE as i128) > i64::MAX as i128 {
            Percent { decimal: i64::MAX }
        } else {
            Percent { decimal: (multiplier - (SCALE as i128)) as i64 }
        }
    }

    /// The fixed-point multiplier implied by this change.
    pub fn as_multiplier(&self) -> (r: i128)
        ensures
            r == multiplier_of(self@),
    {
        (self.decimal as i128) + (SCALE as i128)
    }

    /// The fixed-point decimal of this change.
    pub fn as_decimal(&self) -> (r: i64)
        ensures
            r == self@,
    {
        self.decimal
    }

    /// The change in percentage points, scaled by `SCALE`.
    pub fn as_percent(&self) -> (r: i128)
        ensures
            r == self@ * 100,
    {
        (self.decimal as i128) * 100
    }

    /// Chains this change with a subsequent one multiplicatively.
    pub fn compose(&self, other: Percent) -> (r: Percent)
        ensures
            r@ == compose_decimals(self@, other@),
    {
        let m1: i128 = self.as_multiplier();
        let m2: i128 = other.as_multiplier();
        proof {
            lemma_mul_abs_bound(
                m1 as int,
                m2 as int,
                i64::MAX as int + SCALE as int,
                i64::MAX as int + SCALE as int,
            );
            assert((i64::MAX as int + SCALE as int) * (i64::MAX as int + SCALE as int)
                < i128::MAX) by (nonlinear_arith);
        }
        let product: i128 = m1 * m2;
        let m: i128 = div_round_i128(product, SCALE as u64);
        Percent::from_multiplier_wide(m)
    }

    /// Chains every change of the sequence, in order.
    pub fn compose_all(percents: &Vec<Percent>) -> (r: Percent)
        ensures
            r@ == compose_all_decimals(decimals_of(percents@)),
    {
        let ghost all = decimals_of(percents@);
        let mut acc = Percent::zero();
        let mut i: usize = 0;
        proof {
            assert(all.subrange(0, 0) =~= Seq::<int>::empty());
        }
        while i < percents.len()
            invariant
                0 <= i <= percents.len(),
                all == decimals_of(percents@),
                all.len() == percents@.len(),
                acc@ == compose_all_decimals(all.subrange(0, i as int)),
            decreases percents.len() - i,
        {
            acc = acc.compose(percents[i]);
            proof {
                assert(all.subrange(0, i + 1).drop_last() =~= all.subrange(0, i as int));
                assert(all.subrange(0, i + 1).last() == percents@[i as int]@);
            }
            i = i + 1;
        }
        proof {
            assert(all.subrange(0, percents@.len() as int) =~= all);
        }
        acc
    }

    /// The additive inverse of this change.
    pub fn neg(&self) -> (r: Percent)
        requires
            self@ > i64::MIN,
        ensures
            r@ == -self@,
    {
        Percent { decimal: -self.decimal }
    }

    /// Sum of two same-unit changes, saturating at the representable
    /// range.
    pub fn plus(&self, other: Percent) -> (r: Percent)
        ensures
            r@ == clamp_i64(self@ + other@),
    {
        Percent { decimal: clamp_i64_exec((self.decimal as i128) + (other.decimal as i128)) }
    }

    /// Difference of two same-unit changes, saturating at the
    /// representable range.
    pub fn minus(&self, other: Percent) -> (r: Percent)
        ensures
            r@ == clamp_i64(self@ - other@),
    {
        Percent { decimal: clamp_i64_exec((self.decimal as i128) - (other.decimal as i128)) }
    }
}

/// The percent whose view is the given decimal (as far as the decimal
/// is representable).
pub closed spec fn percent_of_decimal(decimal: int) -> Percent {
    Percent { decimal: decimal as i64 }
}

pub proof fn lemma_percent_of_decimal(decimal: int)
    ensures
        i64::MIN <= decimal <= i64::MAX ==> percent_of_decimal(decimal)@ == decimal,
{
}

/// The view of a percent lies in the range of its representation.
pub broadcast proof fn lemma_percent_view_bounds(p: Percent)
    ensures
        i64::MIN <= #[trigger] p@ <= i64::MAX,
{
}

/// Two changes with the same view are the same change.
pub proof fn lemma_percent_view_injective(a: Percent, b: Percent)
    requires
        a@ == b@,
    ensures
        a == b,
{
}

/// A left-to-right fold of pairwise composition, started from an
/// arbitrary accumulated change.
pub open spec fn fold_compose(acc: int, s: Seq<int>) -> int
    decreases s.len(),
{
    if s.len() == 0 {
        acc
    } else {
        fold_compose(compose_decimals(acc, s.first()), s.drop_first())
    }
}

proof fn lemma_fold_compose_snoc(acc: int, s: Seq<int>, x: int)
    ensures
        fold_compose(acc, s.push(x)) == compose_decimals(fold_compose(acc, s), x),
    decreases s.len(),
{
    assert(s.push(x).len() == s.len() + 1);
    if s.len() == 0 {
        assert(s.push(x).first() == x);
        assert(s.push(x).drop_first() =~= Seq::<int>::empty());
        assert(fold_compose(acc, s.push(x)) == fold_compose(
            compose_decimals(acc, x),
            Seq::<int>::empty(),
        ));
        assert(fold_compose(compose_decimals(acc, x), Seq::<int>::empty()) == compose_decimals(
            acc,
            x,
        ));
        assert(fold_compose(acc, s) == acc);
    } else {
        assert(s.push(x).first() == s.first());
        assert(s.push(x).drop_first() =~= s.drop_first().push(x));
        assert(fold_compose(acc, s.push(x)) == fold_compose(
            compose_decimals(acc, s.first()),
            s.drop_first().push(x),
        ));
        lemma_fold_compose_snoc(compose_decimals(acc, s.first()), s.drop_first(), x);
        assert(fold_compose(acc, s) == fold_compose(
            compose_decimals(acc, s.first()),
            s.drop_first(),
        ));
    }
}

/// Composing a whole sequence equals folding pairwise composition over
/// it from left to right, starting from the neutral change.
pub proof fn lemma_compose_all_is_pairwise_fold(s: Seq<int>)
    ensures
        compose_all_decimals(s) == fold_compose(0, s),
    decreases s.len(),
{
    if s.len() == 0 {
    } else {
        lemma_compose_all_is_pairwise_fold(s.drop_last());
        lemma_fold_compose_snoc(0, s.drop_last(), s.last());
        assert(s.drop_last().push(s.last()) =~= s);
    }
}

} // verus!
