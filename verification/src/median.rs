//! The exact-median accumulator: a kept-sorted sequence of samples,
//! combined by ordered merge, exposing min, max, median, percentile and
//! interquartile range.

use vstd::prelude::*;
use vstd::relations::sorted_by;
use vstd::relations::total_ordering;
use vstd::seq_lib::lemma_sorted_unique;
use vstd::seq_lib::lemma_multiset_commutative;
use vstd::seq_lib::group_to_multiset_ensures;
use vstd::multiset::Multiset;
use vstd::multiset::group_multiset_axioms;
use crate::fixed::SCALE;
use crate::fixed::div_round;
use crate::fixed::clamp_i64;
use crate::fixed::div_round_i128;
use crate::fixed::lemma_div_round_bounded;
use crate::percent::Percent;
use crate::price_change::PriceChange;
use crate::price_change::lemma_price_change_view_bounds;
use crate::price_change::lemma_price_change_view_injective;
use crate::stats::PriceHistoryStatisticValue;
use crate::variants::PriceHistoryDescriptor;

verus! {

/// Sortedness of a sequence of changes by their decimal values.
pub open spec fn sorted_changes(s: Seq<PriceChange>) -> bool {
    forall|i: int, j: int| 0 <= i < j < s.len() ==> (#[trigger] s[i])@ <= (#[trigger] s[j])@
}

/// The ordering the sorted sequences follow.
pub open spec fn change_leq() -> spec_fn(PriceChange, PriceChange) -> bool {
    |x: PriceChange, y: PriceChange| x@ <= y@
}

/// The ordered merge of two sequences: the smaller head goes first; on
/// ties the right head goes first, as the executable merge takes it.
pub open spec fn merge_changes(a: Seq<PriceChange>, b: Seq<PriceChange>) -> Seq<PriceChange>
    decreases a.len(), b.len(),
{
    if a.len() == 0 {
        b
    } else if b.len() == 0 {
        a
    } else if a.first()@ < b.first()@ {
        seq![a.first()] + merge_changes(a.drop_first(), b)
    } else {
        seq![b.first()] + merge_changes(a, b.drop_first())
    }
}

/// The first element of a sorted sequence bounds every element it
/// contains.
proof fn lemma_first_le_all(s: Seq<PriceChange>, x: PriceChange)
    requires
        sorted_changes(s),
        s.len() > 0,
        s.contains(x),
    ensures
        s.first()@ <= x@,
{
    let k = choose|k: int| 0 <= k < s.len() && s[k] == x;
    assert(s[k] == x);
}

/// Dropping the first element keeps a sequence sorted.
proof fn lemma_drop_first_sorted(s: Seq<PriceChange>)
    requires
        sorted_changes(s),
        s.len() > 0,
    ensures
        sorted_changes(s.drop_first()),
{
    assert forall|i: int, j: int|
        0 <= i < j < s.drop_first().len() implies (#[trigger] s.drop_first()[i])@
        <= (#[trigger] s.drop_first()[j])@ by {
        assert(s.drop_first()[i] == s[i + 1]);
        assert(s.drop_first()[j] == s[j + 1]);
    };
}

/// Merging two sorted sequences yields a sorted sequence holding
/// exactly the elements of both, in the length of both together.
pub proof fn lemma_merge_properties(a: Seq<PriceChange>, b: Seq<PriceChange>)
    requires
        sorted_changes(a),
        sorted_changes(b),
    ensures
        merge_changes(a, b).len() == a.len() + b.len(),
        merge_changes(a, b).to_multiset() == a.to_multiset().add(b.to_multiset()),
        sorted_changes(merge_changes(a, b)),
        forall|x: PriceChange| #[trigger]
            merge_changes(a, b).contains(x) ==> a.contains(x) || b.contains(x),
    decreases a.len(), b.len(),
{
    broadcast use group_to_multiset_ensures;
    broadcast use group_multiset_axioms;

    let m = merge_changes(a, b);
    if a.len() == 0 {
        assert(a.to_multiset() =~= Multiset::<PriceChange>::empty());
        assert(m.to_multiset() =~= a.to_multiset().add(b.to_multiset()));
    } else if b.len() == 0 {
        assert(b.to_multiset() =~= Multiset::<PriceChange>::empty());
        assert(m.to_multiset() =~= a.to_multiset().add(b.to_multiset()));
    } else if a.first()@ < b.first()@ {
        let rest = merge_changes(a.drop_first(), b);
        let head = a.first();
        lemma_drop_first_sorted(a);
        lemma_merge_properties(a.drop_first(), b);
        assert(m =~= seq![head] + rest);
        assert(m.drop_first() =~= rest);
        assert(m.first() == head);
        // sortedness: the head is below everything the tail holds
        assert forall|i: int, j: int| 0 <= i < j < m.len() implies (#[trigger] m[i])@
            <= (#[trigger] m[j])@ by {
            if i == 0 {
                let x = rest[j - 1];
                assert(rest.contains(x));
                if a.drop_first().contains(x) {
                    lemma_first_le_all(a.drop_first(), x);
                    assert(head@ <= a.drop_first().first()@);
                } else {
                    lemma_first_le_all(b, x);
                }
            } else {
                assert(m[i] == rest[i - 1]);
                assert(m[j] == rest[j - 1]);
            }
        };
        // multiset: putting the head back restores `a`'s multiset
        assert(a.drop_first() =~= a.remove(0));
        assert(a.remove(0).to_multiset() =~= a.to_multiset().remove(a[0]));
        assert(a.to_multiset().contains(a[0]));
        assert(a.to_multiset().remove(a[0]).insert(a[0]) =~= a.to_multiset());
        assert(m.drop_first() =~= m.remove(0));
        assert(m.remove(0).to_multiset() =~= m.to_multiset().remove(m[0]));
        assert(m.to_multiset().contains(m[0]));
        assert(m.to_multiset().remove(m[0]).insert(m[0]) =~= m.to_multiset());
        assert(m.to_multiset() =~= rest.to_multiset().insert(head));
        assert(rest.to_multiset().insert(head) =~= a.drop_first().to_multiset().add(
            b.to_multiset(),
        ).insert(head));
        assert(a.drop_first().to_multiset().add(b.to_multiset()).insert(head)
            =~= a.drop_first().to_multiset().insert(head).add(b.to_multiset()));
        assert(a.drop_first().to_multiset().insert(head) =~= a.to_multiset());
        // containment
        assert forall|x: PriceChange| #[trigger] m.contains(x) implies a.contains(x)
            || b.contains(x) by {
            let k = choose|k: int| 0 <= k < m.len() && m[k] == x;
            if k == 0 {
                assert(a.contains(a.first()));
            } else {
                assert(rest[k - 1] == x);
                assert(rest.contains(x));
                if a.drop_first().contains(x) {
                    let k2 = choose|k2: int| 0 <= k2 < a.drop_first().len() && a.drop_first()[k2]
                        == x;
                    assert(a[k2 + 1] == x);
                }
            }
        };
    } else {
        let rest = merge_changes(a, b.drop_first());
        let head = b.first();
        lemma_drop_first_sorted(b);
        lemma_merge_properties(a, b.drop_first());
        assert(m =~= seq![head] + rest);
        assert(m.drop_first() =~= rest);
        assert(m.first() == head);
        assert forall|i: int, j: int| 0 <= i < j < m.len() implies (#[trigger] m[i])@
            <= (#[trigger] m[j])@ by {
            if i == 0 {
                let x = rest[j - 1];
                assert(rest.contains(x));
                if a.contains(x) {
                    lemma_first_le_all(a, x);
                } else {
                    lemma_first_le_all(b.drop_first(), x);
                    assert(head@ <= b.drop_first().first()@);
                }
            } else {
                assert(m[i] == rest[i - 1]);
                assert(m[j] == rest[j - 1]);
            }
        };
        assert(b.drop_first() =~= b.remove(0));
        assert(b.remove(0).to_multiset() =~= b.to_multiset().remove(b[0]));
        assert(b.to_multiset().contains(b[0]));
        assert(b.to_multiset().remove(b[0]).insert(b[0]) =~= b.to_multiset());
        assert(m.drop_first() =~= m.remove(0));
        assert(m.remove(0).to_multiset() =~= m.to_multiset().remove(m[0]));
        assert(m.to_multiset().contains(m[0]));
        assert(m.to_multiset().remove(m[0]).insert(m[0]) =~= m.to_multiset());
        assert(m.to_multiset() =~= rest.to_multiset().insert(head));
        assert(rest.to_multiset().insert(head) =~= a.to_multiset().add(
            b.drop_first().to_multiset(),
        ).insert(head));
        assert(a.to_multiset().add(b.drop_first().to_multiset()).insert(head)
            =~= a.to_multiset().add(b.drop_first().to_multiset().insert(head)));
        assert(b.drop_first().to_multiset().insert(head) =~= b.to_multiset());
        assert forall|x: PriceChange| #[trigger] m.contains(x) implies a.contains(x)
            || b.contains(x) by {
            let k = choose|k: int| 0 <= k < m.len() && m[k] == x;
            if k == 0 {
                assert(b.contains(b.first()));
            } else {
                assert(rest[k - 1] == x);
                assert(rest.contains(x));
                if b.drop_first().contains(x) {
                    let k2 = choose|k2: int| 0 <= k2 < b.drop_first().len() && b.drop_first()[k2]
                        == x;
                    assert(b[k2 + 1] == x);
                }
            }
        };
    }
}

/// `sorted_changes` is sortedness by the `change_leq` ordering, which
/// orders the changes totally.
proof fn lemma_change_leq_total(s: Seq<PriceChange>)
    ensures
        total_ordering(change_leq()),
        sorted_changes(s) <==> sorted_by(s, change_leq()),
{
    let leq = change_leq();
    assert forall|x: PriceChange, y: PriceChange| #[trigger] leq(x, y) && #[trigger] leq(y, x)
        implies x == y by {
        lemma_price_change_view_injective(x, y);
    };
    if sorted_changes(s) {
        assert forall|i: int, j: int| 0 <= i < j < s.len() implies #[trigger] leq(s[i], s[j]) by {
            assert(s[i]@ <= s[j]@);
        };
    }
    if sorted_by(s, leq) {
        assert forall|i: int, j: int| 0 <= i < j < s.len() implies (#[trigger] s[i])@
            <= (#[trigger] s[j])@ by {
            assert(leq(s[i], s[j]));
        };
    }
}

/// The ordered merge is associative on sorted sequences: either
/// grouping yields a sorted sequence over the same samples, and a
/// sorted sequence is determined by its samples.
pub proof fn lemma_merge_assoc(a: Seq<PriceChange>, b: Seq<PriceChange>, c: Seq<PriceChange>)
    requires
        sorted_changes(a),
        sorted_changes(b),
        sorted_changes(c),
    ensures
        merge_changes(merge_changes(a, b), c) == merge_changes(a, merge_changes(b, c)),
{
    broadcast use group_multiset_axioms;

    lemma_merge_properties(a, b);
    lemma_merge_properties(b, c);
    lemma_merge_properties(merge_changes(a, b), c);
    lemma_merge_properties(a, merge_changes(b, c));
    let left = merge_changes(merge_changes(a, b), c);
    let right = merge_changes(a, merge_changes(b, c));
    assert(left.to_multiset() =~= right.to_multiset());
    lemma_change_leq_total(left);
    lemma_change_leq_total(right);
    lemma_sorted_unique(left, right, change_leq());
}

/// The exact-median accumulator: every sample it has absorbed, kept
/// sorted.
#[derive(Debug, Clone)]
pub struct MedianPriceChange {
    price_changes: Vec<PriceChange>,
    count: u64,
}

impl MedianPriceChange {
    /// The smallest sample.
    pub fn min(&self) -> (r: PriceChange)
        requires
            self.wf(),
            self.count_spec() > 0,
        ensures
            r == self.model().first(),
    {
        self.price_changes[0]
    }

    /// The largest sample.
    pub fn max(&self) -> (r: PriceChange)
        requires
            self.wf(),
            self.count_spec() > 0,
        ensures
            r == self.model().last(),
    {
        self.price_changes[self.price_changes.len() - 1]
    }

    /// The midpoint sample for an odd count; the rounded mean of the
    /// two central samples for an even count.
    pub fn median(&self) -> (r: PriceChange)
        requires
            self.wf(),
            self.count_spec() > 0,
        ensures
            self.count_spec() % 2 == 1 ==> r == self.model()[self.count_spec() as int / 2],
            self.count_spec() % 2 == 0 ==> r@ == div_round(
                self.model()[self.count_spec() as int / 2 - 1]@ + self.model()[
                    self.count_spec() as int / 2]@,
                2,
            ),
    {
        let n = self.price_changes.len();
        let half = n / 2;
        let odd = n % 2 == 1;
        if odd {
            self.price_changes[half]
        } else {
            let low = self.price_changes[half - 1];
            let high = self.price_changes[half];
            proof {
                lemma_price_change_view_bounds(low);
                lemma_price_change_view_bounds(high);
                crate::fixed::lemma_div_round_mono(low@ + high@, 2 * (i64::MAX as int), 2);
                vstd::arithmetic::div_mod::lemma_div_multiples_vanish_fancy(i64::MAX as int, 1, 2);
                lemma_div_round_bounded(low@ + high@, 2, i64::MAX as int + 1);
            }
            let sum: i128 = (low.percent_change().as_decimal() as i128) + (high.percent_change()
                .as_decimal() as i128);
            PriceChange::new(Percent::from_decimal(div_round_i128(sum, 2) as i64))
        }
    }

    /// The spread between the third and the first quartile.
    pub fn inner_quartile_range(&self) -> (r: PriceChange)
        requires
            self.wf(),
            self.count_spec() > 0,
        ensures
            r@ == clamp_i64(
                self.model()[SCALE as int / 4 * 3 * self.count_spec() as int / SCALE as int]@
                    - self.model()[SCALE as int / 4 * self.count_spec() as int / SCALE as int]@,
            ),
    {
        let quartile_1 = self.percentile(Percent::from_percent(25 * SCALE));
        let quartile_3 = self.percentile(Percent::from_percent(75 * SCALE));
        PriceChange::new(quartile_3.percent_change().minus(quartile_1.percent_change()))
    }

    /// The sample at the nearest-rank index `floor(p * count)` of the
    /// sorted samples; `p` is a fraction of one, below one.
    pub fn percentile(&self, percentile: Percent) -> (r: PriceChange)
        requires
            self.wf(),
            self.count_spec() > 0,
            0 <= percentile@ < SCALE,
        ensures
            r == self.model()[percentile@ * self.count_spec() as int / SCALE as int],
    {
        let n = self.price_changes.len();
        proof {
            let p = percentile@;
            let c = n as int;
            vstd::arithmetic::mul::lemma_mul_inequality(p, SCALE as int - 1, c);
            vstd::arithmetic::mul::lemma_mul_strict_inequality(SCALE as int - 1, SCALE as int, c);
            vstd::arithmetic::mul::lemma_mul_is_commutative(SCALE as int, c);
            vstd::arithmetic::div_mod::lemma_multiply_divide_lt(p * c, SCALE as int, c);
            vstd::arithmetic::mul::lemma_mul_nonnegative(p, c);
            vstd::arithmetic::div_mod::lemma_div_pos_is_pos(p * c, SCALE as int);
            crate::fixed::lemma_mul_abs_bound(p, c, SCALE as int, u64::MAX as int);
        }
        let scaled: u128 = (percentile.as_decimal() as u128) * (n as u128);
        let index: usize = (scaled / (SCALE as u128)) as usize;
        self.price_changes[index]
    }
}

impl PriceHistoryStatisticValue for MedianPriceChange {
    type Context = ();

    type Model = Seq<PriceChange>;

    closed spec fn wf(&self) -> bool {
        &&& sorted_changes(self.price_changes@)
        &&& self.count as int == self.price_changes@.len()
    }

    closed spec fn model(&self) -> Seq<PriceChange> {
        self.price_changes@
    }

    open spec fn model_wf(m: Seq<PriceChange>) -> bool {
        sorted_changes(m)
    }

    closed spec fn count_spec(&self) -> nat {
        self.count as nat
    }

    open spec fn ctx_wf(context: Option<()>) -> bool {
        true
    }

    open spec fn sample_ok(price_change: PriceChange, descriptor: PriceHistoryDescriptor) -> bool {
        true
    }

    open spec fn new_model(
        price_change: PriceChange,
        descriptor: PriceHistoryDescriptor,
        context: Option<()>,
    ) -> Seq<PriceChange> {
        seq![price_change]
    }

    open spec fn combine_model(a: Seq<PriceChange>, b: Seq<PriceChange>) -> Seq<PriceChange> {
        merge_changes(a, b)
    }

    open spec fn identity_model() -> Seq<PriceChange> {
        Seq::empty()
    }

    fn identity() -> (r: Self) {
        let price_changes: Vec<PriceChange> = Vec::new();
        proof {
            assert(price_changes@ =~= Seq::<PriceChange>::empty());
        }
        MedianPriceChange { price_changes, count: 0 }
    }

    fn new(
        price_change: PriceChange,
        _descriptor: &PriceHistoryDescriptor,
        _context: Option<&()>,
    ) -> (r: Self) {
        let mut price_changes: Vec<PriceChange> = Vec::new();
        price_changes.push(price_change);
        proof {
            assert(price_changes@ =~= seq![price_change]);
        }
        MedianPriceChange { price_changes, count: 1 }
    }

    fn reduce(a: Self, b: Self, _context: Option<&()>) -> (r: Self) {
        let ghost a_seq = a.price_changes@;
        let ghost b_seq = b.price_changes@;
        proof {
            lemma_merge_properties(a_seq, b_seq);
        }
        let count = a.count + b.count;
        let a_len = a.price_changes.len();
        let b_len = b.price_changes.len();
        let mut merged: Vec<PriceChange> = Vec::new();
        let mut cursor_a: usize = 0;
        let mut cursor_b: usize = 0;
        proof {
            assert(a_seq.subrange(0, a_len as int) =~= a_seq);
            assert(b_seq.subrange(0, b_len as int) =~= b_seq);
            assert(merged@ + merge_changes(a_seq, b_seq) =~= merge_changes(a_seq, b_seq));
        }
        while cursor_a < a_len && cursor_b < b_len
            invariant
                0 <= cursor_a <= a_len,
                0 <= cursor_b <= b_len,
                a_len == a_seq.len(),
                b_len == b_seq.len(),
                a.price_changes@ == a_seq,
                b.price_changes@ == b_seq,
                sorted_changes(a_seq),
                sorted_changes(b_seq),
                merged@ + merge_changes(
                    a_seq.subrange(cursor_a as int, a_len as int),
                    b_seq.subrange(cursor_b as int, b_len as int),
                ) == merge_changes(a_seq, b_seq),
            decreases a_len + b_len - cursor_a - cursor_b,
        {
            let ghost rest_a = a_seq.subrange(cursor_a as int, a_len as int);
            let ghost rest_b = b_seq.subrange(cursor_b as int, b_len as int);
            proof {
                assert(rest_a.first() == a_seq[cursor_a as int]);
                assert(rest_b.first() == b_seq[cursor_b as int]);
            }
            if a.price_changes[cursor_a].percent_change().as_decimal() < b.price_changes[
                cursor_b].percent_change().as_decimal() {
                merged.push(a.price_changes[cursor_a]);
                cursor_a = cursor_a + 1;
                proof {
                    assert(rest_a.drop_first() =~= a_seq.subrange(cursor_a as int, a_len as int));
                    assert(merge_changes(rest_a, rest_b) == seq![rest_a.first()] + merge_changes(
                        rest_a.drop_first(),
                        rest_b,
                    ));
                    assert(merged@ + merge_changes(
                        a_seq.subrange(cursor_a as int, a_len as int),
                        rest_b,
                    ) =~= merge_changes(a_seq, b_seq));
                }
            } else {
                merged.push(b.price_changes[cursor_b]);
                cursor_b = cursor_b + 1;
                proof {
                    assert(rest_b.drop_first() =~= b_seq.subrange(cursor_b as int, b_len as int));
                    assert(merge_changes(rest_a, rest_b) == seq![rest_b.first()] + merge_changes(
                        rest_a,
                        rest_b.drop_first(),
                    ));
                    assert(merged@ + merge_changes(
                        rest_a,
                        b_seq.subrange(cursor_b as int, b_len as int),
                    ) =~= merge_changes(a_seq, b_seq));
                }
            }
        }
        while cursor_a < a_len
            invariant
                0 <= cursor_a <= a_len,
                0 <= cursor_b <= b_len,
                a_len == a_seq.len(),
                b_len == b_seq.len(),
                a.price_changes@ == a_seq,
                cursor_a < a_len ==> cursor_b == b_len,
                merged@ + merge_changes(
                    a_seq.subrange(cursor_a as int, a_len as int),
                    b_seq.subrange(cursor_b as int, b_len as int),
                ) == merge_changes(a_seq, b_seq),
            decreases a_len - cursor_a,
        {
            let ghost rest_a = a_seq.subrange(cursor_a as int, a_len as int);
            proof {
                assert(b_seq.subrange(cursor_b as int, b_len as int) =~= Seq::<
                    PriceChange,
                >::empty());
                assert(merge_changes(rest_a, Seq::<PriceChange>::empty()) == rest_a);
            }
            merged.push(a.price_changes[cursor_a]);
            cursor_a = cursor_a + 1;
            proof {
                let rest_next = a_seq.subrange(cursor_a as int, a_len as int);
                assert(merged@ + rest_next =~= merged@.drop_last() + rest_a);
                assert(merge_changes(rest_next, b_seq.subrange(cursor_b as int, b_len as int))
                    == rest_next);
                assert(merged@ + merge_changes(
                    rest_next,
                    b_seq.subrange(cursor_b as int, b_len as int),
                ) =~= merged@.drop_last() + merge_changes(
                    rest_a,
                    b_seq.subrange(cursor_b as int, b_len as int),
                ));
            }
        }
        proof {
            assert(a_seq.subrange(cursor_a as int, a_len as int) =~= Seq::<PriceChange>::empty());
            assert(merge_changes(
                Seq::<PriceChange>::empty(),
                b_seq.subrange(cursor_b as int, b_len as int),
            ) == b_seq.subrange(cursor_b as int, b_len as int));
        }
        while cursor_b < b_len
            invariant
                0 <= cursor_b <= b_len,
                b_len == b_seq.len(),
                b.price_changes@ == b_seq,
                merged@ + b_seq.subrange(cursor_b as int, b_len as int) == merge_changes(
                    a_seq,
                    b_seq,
                ),
            decreases b_len - cursor_b,
        {
            merged.push(b.price_changes[cursor_b]);
            cursor_b = cursor_b + 1;
            proof {
                assert(merged@ + b_seq.subrange(cursor_b as int, b_len as int) =~= merge_changes(
                    a_seq,
                    b_seq,
                ));
            }
        }
        proof {
            assert(merged@ =~= merge_changes(a_seq, b_seq));
        }
        MedianPriceChange { price_changes: merged, count }
    }

    proof fn wf_model(&self) {
    }

    proof fn new_model_wf(
        price_change: PriceChange,
        descriptor: PriceHistoryDescriptor,
        context: Option<()>,
    ) {
    }

    proof fn combine_model_wf(a: Seq<PriceChange>, b: Seq<PriceChange>) {
        lemma_merge_properties(a, b);
    }

    proof fn combine_model_assoc(a: Seq<PriceChange>, b: Seq<PriceChange>, c: Seq<PriceChange>) {
        lemma_merge_assoc(a, b, c);
    }

    proof fn identity_model_neutral(m: Seq<PriceChange>) {
        let empty = Seq::<PriceChange>::empty();
        assert(merge_changes(empty, m) == m);
        if m.len() == 0 {
            assert(merge_changes(m, empty) == empty);
            assert(m =~= empty);
        } else {
            assert(merge_changes(m, empty) == m);
        }
    }
}

/// A consistent accumulator holds exactly as many samples as its count
/// reports, and holds them sorted.
pub proof fn lemma_median_count_is_len(m: MedianPriceChange)
    requires
        m.wf(),
    ensures
        m.count_spec() == m.model().len(),
        sorted_changes(m.model()),
{
}

/// Merging the kept sequences of two accumulators yields the sorted
/// arrangement of all their samples together: the result is sorted and
/// holds exactly the samples of both, which determines it uniquely.
pub proof fn lemma_median_merge_is_sorted_concat(a: MedianPriceChange, b: MedianPriceChange)
    requires
        a.wf(),
        b.wf(),
    ensures
        sorted_changes(MedianPriceChange::combine_model(a.model(), b.model())),
        MedianPriceChange::combine_model(a.model(), b.model()).to_multiset() == (a.model()
            + b.model()).to_multiset(),
        MedianPriceChange::combine_model(a.model(), b.model()).len() == a.model().len()
            + b.model().len(),
{
    a.wf_model();
    b.wf_model();
    lemma_merge_properties(a.model(), b.model());
    lemma_multiset_commutative(a.model(), b.model());
}

} // verus!
