//! The generic statistics-reduction framework: per-path accumulators,
//! keyed by descriptor, combined pairwise into one aggregate per
//! descriptor.
//!
//! Every accumulator kind carries a mathematical model and a proof that
//! combining models is associative, so the aggregate each column
//! reaches is the same however the population of paths is grouped —
//! which is what makes a parallel reduction tree deterministic by key.

use vstd::prelude::*;
use crate::fixed::SCALE;
use crate::fixed::sq;
use crate::fixed::div_round;
use crate::fixed::div_round_i128;
use crate::fixed::isqrt;
use crate::fixed::lemma_div_round_bounded;
use crate::percent::Percent;
use crate::price_change::PriceChange;
use crate::price_change::annualized_decimal;
use crate::variants::PriceHistoryDescriptor;
use crate::variants::PriceHistoryVariants;
use crate::variants::LEVERAGE_LEVEL_COUNT;

verus! {

/// The most samples one reduction may aggregate; machine bound, far
/// above any realistic simulation count.
pub const COUNT_CAP: u64 = 0xFFFF_FFFF;

/// The spec value of an optional borrowed context.
pub open spec fn deref_ctx<C>(context: Option<&C>) -> Option<C> {
    match context {
        Some(c) => Some(*c),
        None => None,
    }
}

/// An aggregate value with an identity, a per-sample constructor, and
/// an associative pairwise combination.
///
/// `Model` is the mathematical content of an accumulator: combining
/// accumulators combines models, and the associativity obligation
/// `combine_model_assoc` makes the end result of a reduction
/// independent of how the accumulators are grouped.
pub trait PriceHistoryStatisticValue: Sized {
    /// Externally supplied per-descriptor information, where the
    /// statistic needs any.
    type Context;

    /// The mathematical content of an accumulator.
    type Model;

    /// Internal consistency of an accumulator.
    spec fn wf(&self) -> bool;

    /// The model of this accumulator.
    spec fn model(&self) -> Self::Model;

    /// Consistency of a model.
    spec fn model_wf(m: Self::Model) -> bool;

    /// How many samples the accumulator has absorbed.
    spec fn count_spec(&self) -> nat;

    /// Whether a per-descriptor context is acceptable to this
    /// statistic.
    spec fn ctx_wf(context: Option<Self::Context>) -> bool;

    /// Whether a sample can be folded in at all.
    spec fn sample_ok(price_change: PriceChange, descriptor: PriceHistoryDescriptor) -> bool;

    /// The model of the accumulator built from one sample.
    spec fn new_model(
        price_change: PriceChange,
        descriptor: PriceHistoryDescriptor,
        context: Option<Self::Context>,
    ) -> Self::Model;

    /// The model of the combination of two accumulators.
    spec fn combine_model(a: Self::Model, b: Self::Model) -> Self::Model;

    /// The model of the identity accumulator.
    spec fn identity_model() -> Self::Model;

    /// The zero-sized accumulator, over no samples at all.
    fn identity() -> (r: Self)
        ensures
            r.wf(),
            r.count_spec() == 0,
            r.model() == Self::identity_model(),
    ;

    /// The accumulator over exactly one sample.
    fn new(
        price_change: PriceChange,
        descriptor: &PriceHistoryDescriptor,
        context: Option<&Self::Context>,
    ) -> (r: Self)
        requires
            Self::ctx_wf(deref_ctx(context)),
            Self::sample_ok(price_change, *descriptor),
        ensures
            r.wf(),
            r.count_spec() == 1,
            r.model() == Self::new_model(price_change, *descriptor, deref_ctx(context)),
    ;

    /// Combines two accumulators over disjoint sample populations.
    fn reduce(a: Self, b: Self, context: Option<&Self::Context>) -> (r: Self)
        requires
            a.wf(),
            b.wf(),
            a.count_spec() + b.count_spec() <= COUNT_CAP,
        ensures
            r.wf(),
            r.count_spec() == a.count_spec() + b.count_spec(),
            r.model() == Self::combine_model(a.model(), b.model()),
    ;

    /// A consistent accumulator carries a consistent model.
    proof fn wf_model(&self)
        requires
            self.wf(),
        ensures
            Self::model_wf(self.model()),
    ;

    /// A single sample yields a consistent model.
    proof fn new_model_wf(
        price_change: PriceChange,
        descriptor: PriceHistoryDescriptor,
        context: Option<Self::Context>,
    )
        requires
            Self::ctx_wf(context),
            Self::sample_ok(price_change, descriptor),
        ensures
            Self::model_wf(Self::new_model(price_change, descriptor, context)),
    ;

    /// Combining consistent models yields a consistent model.
    proof fn combine_model_wf(a: Self::Model, b: Self::Model)
        requires
            Self::model_wf(a),
            Self::model_wf(b),
        ensures
            Self::model_wf(Self::combine_model(a, b)),
    ;

    /// Combining models is associative, so reducing accumulators in
    /// any grouping, in order, yields the same final model.
    proof fn combine_model_assoc(a: Self::Model, b: Self::Model, c: Self::Model)
        requires
            Self::model_wf(a),
            Self::model_wf(b),
            Self::model_wf(c),
        ensures
            Self::combine_model(Self::combine_model(a, b), c) == Self::combine_model(
                a,
                Self::combine_model(b, c),
            ),
    ;

    /// The identity accumulator is neutral for combination.
    proof fn identity_model_neutral(m: Self::Model)
        requires
            Self::model_wf(m),
        ensures
            Self::combine_model(Self::identity_model(), m) == m,
            Self::combine_model(m, Self::identity_model()) == m,
    ;
}

/// The spec view of an optional context table.
pub open spec fn ctx_view<C>(context: Option<&Vec<C>>) -> Option<Seq<C>> {
    match context {
        Some(v) => Some(v@),
        None => None,
    }
}

/// The context handed to the statistic of column `i`.
pub open spec fn ctx_for<C>(context: Option<Seq<C>>, i: int) -> Option<C> {
    match context {
        Some(s) => Some(s[i]),
        None => None,
    }
}

/// Whether a context table serves every column: one acceptable entry
/// per studied leverage level.
pub open spec fn contexts_ok<T: PriceHistoryStatisticValue>(context: Option<Seq<T::Context>>) -> bool {
    &&& (context is Some ==> context.unwrap().len() == LEVERAGE_LEVEL_COUNT)
    &&& forall|i: int|
        0 <= i < LEVERAGE_LEVEL_COUNT ==> T::ctx_wf(#[trigger] ctx_for(context, i))
}

/// Whether every variant set is well-formed and carries the same
/// descriptors as the first, so that accumulators line up by index.
pub open spec fn aligned_variants(variants: Seq<PriceHistoryVariants>) -> bool {
    forall|k: int|
        0 <= k < variants.len() ==> (#[trigger] variants[k]).wf() && variants[k].descriptors_spec()
            == variants[0].descriptors_spec()
}

/// Whether every total of every variant set is a sample the statistic
/// accepts.
pub open spec fn samples_ok<T: PriceHistoryStatisticValue>(
    variants: Seq<PriceHistoryVariants>,
) -> bool {
    forall|k: int, i: int|
        0 <= k < variants.len() && 0 <= i < LEVERAGE_LEVEL_COUNT ==> T::sample_ok(
            #[trigger] variants[k].totals_spec()[i],
            variants[k].descriptors_spec()[i],
        )
}

/// The model of column `i` after folding every path's sample, in path
/// order.
pub open spec fn column_fold<T: PriceHistoryStatisticValue>(
    variants: Seq<PriceHistoryVariants>,
    i: int,
    ctx: Option<T::Context>,
) -> T::Model
    decreases variants.len(),
{
    if variants.len() <= 1 {
        T::new_model(variants[0].totals_spec()[i], variants[0].descriptors_spec()[i], ctx)
    } else {
        T::combine_model(
            column_fold::<T>(variants.drop_last(), i, ctx),
            T::new_model(
                variants.last().totals_spec()[i],
                variants.last().descriptors_spec()[i],
                ctx,
            ),
        )
    }
}

/// A column fold over consistent samples is a consistent model.
pub proof fn lemma_column_fold_wf<T: PriceHistoryStatisticValue>(
    variants: Seq<PriceHistoryVariants>,
    i: int,
    ctx: Option<T::Context>,
)
    requires
        variants.len() >= 1,
        0 <= i < LEVERAGE_LEVEL_COUNT,
        T::ctx_wf(ctx),
        samples_ok::<T>(variants),
    ensures
        T::model_wf(column_fold::<T>(variants, i, ctx)),
    decreases variants.len(),
{
    if variants.len() == 1 {
        T::new_model_wf(variants[0].totals_spec()[i], variants[0].descriptors_spec()[i], ctx);
    } else {
        let prefix = variants.drop_last();
        assert(samples_ok::<T>(prefix)) by {
            assert(forall|k: int| 0 <= k < prefix.len() ==> prefix[k] == variants[k]);
        };
        lemma_column_fold_wf::<T>(prefix, i, ctx);
        T::new_model_wf(
            variants.last().totals_spec()[i],
            variants.last().descriptors_spec()[i],
            ctx,
        );
        T::combine_model_wf(
            column_fold::<T>(prefix, i, ctx),
            T::new_model(
                variants.last().totals_spec()[i],
                variants.last().descriptors_spec()[i],
                ctx,
            ),
        );
    }
}

/// The reduction is deterministic by key whatever the grouping:
/// combining the folds of two adjacent blocks of paths equals the fold
/// of all the paths at once. With associativity this extends to every
/// reduction tree over the same path order.
pub proof fn lemma_column_fold_split<T: PriceHistoryStatisticValue>(
    variants: Seq<PriceHistoryVariants>,
    mid: int,
    i: int,
    ctx: Option<T::Context>,
)
    requires
        1 <= mid < variants.len(),
        0 <= i < LEVERAGE_LEVEL_COUNT,
        T::ctx_wf(ctx),
        samples_ok::<T>(variants),
    ensures
        column_fold::<T>(variants, i, ctx) == T::combine_model(
            column_fold::<T>(variants.subrange(0, mid), i, ctx),
            column_fold::<T>(variants.subrange(mid, variants.len() as int), i, ctx),
        ),
    decreases variants.len(),
{
    let n = variants.len() as int;
    let left = variants.subrange(0, mid);
    let right = variants.subrange(mid, n);
    assert(samples_ok::<T>(left)) by {
        assert(forall|k: int| 0 <= k < left.len() ==> left[k] == variants[k]);
    };
    assert(samples_ok::<T>(right)) by {
        assert(forall|k: int| 0 <= k < right.len() ==> right[k] == variants[k + mid]);
    };
    let last_model = T::new_model(
        variants.last().totals_spec()[i],
        variants.last().descriptors_spec()[i],
        ctx,
    );
    if mid == n - 1 {
        assert(right.len() == 1);
        assert(right[0] == variants[n - 1]);
        assert(variants.drop_last() =~= left);
        assert(column_fold::<T>(right, i, ctx) == last_model);
    } else {
        let shorter = variants.drop_last();
        assert(samples_ok::<T>(shorter)) by {
            assert(forall|k: int| 0 <= k < shorter.len() ==> shorter[k] == variants[k]);
        };
        lemma_column_fold_split::<T>(shorter, mid, i, ctx);
        assert(shorter.subrange(0, mid) =~= left);
        assert(shorter.subrange(mid, shorter.len() as int) =~= variants.subrange(mid, n - 1));
        let mid_block = variants.subrange(mid, n - 1);
        lemma_column_fold_wf::<T>(left, i, ctx);
        lemma_column_fold_wf::<T>(mid_block, i, ctx);
        T::new_model_wf(variants.last().totals_spec()[i], variants.last().descriptors_spec()[i], ctx);
        T::combine_model_assoc(
            column_fold::<T>(left, i, ctx),
            column_fold::<T>(mid_block, i, ctx),
            last_model,
        );
        assert(right.drop_last() =~= mid_block);
        assert(right.last() == variants.last());
        assert(column_fold::<T>(right, i, ctx) == T::combine_model(
            column_fold::<T>(mid_block, i, ctx),
            last_model,
        ));
    }
}

/// One per-descriptor accumulator set: `values[i]` aggregates column
/// `i` of the paths folded in so far, aligned with `descriptors[i]`.
pub struct PriceHistoryStatistic<T> {
    depth: usize,
    descriptors: Vec<PriceHistoryDescriptor>,
    values: Vec<T>,
}

impl<T: PriceHistoryStatisticValue> PriceHistoryStatistic<T> {
    pub closed spec fn descriptors_spec(&self) -> Seq<PriceHistoryDescriptor> {
        self.descriptors@
    }

    pub closed spec fn values_spec(&self) -> Seq<T> {
        self.values@
    }

    pub closed spec fn depth_spec(&self) -> int {
        self.depth as int
    }

    /// How many paths every accumulator of the set has absorbed.
    pub open spec fn stat_count(&self) -> nat {
        if self.values_spec().len() > 0 {
            self.values_spec()[0].count_spec()
        } else {
            0
        }
    }

    pub open spec fn stat_wf(&self) -> bool {
        &&& self.depth_spec() == LEVERAGE_LEVEL_COUNT
        &&& self.descriptors_spec().len() == LEVERAGE_LEVEL_COUNT
        &&& self.values_spec().len() == LEVERAGE_LEVEL_COUNT
        &&& forall|i: int|
            0 <= i < LEVERAGE_LEVEL_COUNT ==> (#[trigger] self.values_spec()[i]).wf()
        &&& forall|i: int|
            0 <= i < LEVERAGE_LEVEL_COUNT ==> (#[trigger] self.values_spec()[i]).count_spec()
                == self.stat_count()
    }

    /// One path's accumulator set: one per-sample accumulator per
    /// descriptor.
    fn new(variants: &PriceHistoryVariants, context: Option<&Vec<T::Context>>) -> (r: Self)
        requires
            variants.wf(),
            contexts_ok::<T>(ctx_view(context)),
            forall|i: int|
                0 <= i < LEVERAGE_LEVEL_COUNT ==> T::sample_ok(
                    #[trigger] variants.totals_spec()[i],
                    variants.descriptors_spec()[i],
                ),
        ensures
            r.stat_wf(),
            r.stat_count() == 1,
            r.descriptors_spec() == variants.descriptors_spec(),
            forall|i: int|
                0 <= i < LEVERAGE_LEVEL_COUNT ==> (#[trigger] r.values_spec()[i]).model()
                    == T::new_model(
                    variants.totals_spec()[i],
                    variants.descriptors_spec()[i],
                    ctx_for(ctx_view(context), i),
                ),
    {
        let source_descriptors = variants.descriptors();
        let totals = variants.total_price_changes();
        let mut descriptors: Vec<PriceHistoryDescriptor> = Vec::new();
        let mut values: Vec<T> = Vec::new();
        let mut i: usize = 0;
        while i < source_descriptors.len()
            invariant
                0 <= i <= source_descriptors.len(),
                variants.wf(),
                contexts_ok::<T>(ctx_view(context)),
                forall|j: int|
                    0 <= j < LEVERAGE_LEVEL_COUNT ==> T::sample_ok(
                        #[trigger] variants.totals_spec()[j],
                        variants.descriptors_spec()[j],
                    ),
                source_descriptors@ == variants.descriptors_spec(),
                totals@ == variants.totals_spec(),
                descriptors@ =~= variants.descriptors_spec().subrange(0, i as int),
                values@.len() == i,
                forall|j: int| 0 <= j < i ==> (#[trigger] values@[j]).wf(),
                forall|j: int| 0 <= j < i ==> (#[trigger] values@[j]).count_spec() == 1,
                forall|j: int|
                    0 <= j < i ==> (#[trigger] values@[j]).model() == T::new_model(
                        variants.totals_spec()[j],
                        variants.descriptors_spec()[j],
                        ctx_for(ctx_view(context), j),
                    ),
            decreases source_descriptors.len() - i,
        {
            let descriptor = source_descriptors[i];
            proof {
                assert(T::ctx_wf(ctx_for(ctx_view(context), i as int)));
            }
            let ctx: Option<&T::Context> = match context {
                Some(table) => {
                    proof {
                        assert(ctx_view(context) == Some(table@));
                    }
                    Some(&table[i])
                },
                None => None,
            };
            proof {
                assert(deref_ctx(ctx) == ctx_for(ctx_view(context), i as int));
            }
            values.push(T::new(totals[i], &descriptor, ctx));
            descriptors.push(descriptor);
            i = i + 1;
        }
        proof {
            assert(descriptors@ =~= variants.descriptors_spec());
        }
        let depth = values.len();
        PriceHistoryStatistic { depth, descriptors, values }
    }

    /// Combines two aligned accumulator sets descriptor by descriptor.
    fn merge_statistics(stat_a: Self, stat_b: Self, context: Option<&Vec<T::Context>>) -> (r: Self)
        requires
            stat_a.stat_wf(),
            stat_b.stat_wf(),
            stat_a.descriptors_spec() == stat_b.descriptors_spec(),
            stat_a.stat_count() + stat_b.stat_count() <= COUNT_CAP,
            contexts_ok::<T>(ctx_view(context)),
        ensures
            r.stat_wf(),
            r.descriptors_spec() == stat_a.descriptors_spec(),
            r.stat_count() == stat_a.stat_count() + stat_b.stat_count(),
            forall|i: int|
                0 <= i < LEVERAGE_LEVEL_COUNT ==> (#[trigger] r.values_spec()[i]).model()
                    == T::combine_model(
                    stat_a.values_spec()[i].model(),
                    stat_b.values_spec()[i].model(),
                ),
    {
        let ghost a_all = stat_a.values@;
        let ghost b_all = stat_b.values@;
        let ghost total = stat_a.stat_count() + stat_b.stat_count();
        let depth = stat_a.depth;
        let descriptors = stat_a.descriptors;
        let mut a_values = stat_a.values;
        let mut b_values = stat_b.values;
        let mut values: Vec<T> = Vec::new();
        let mut i: usize = 0;
        while i < depth
            invariant
                0 <= i <= depth,
                depth == LEVERAGE_LEVEL_COUNT,
                contexts_ok::<T>(ctx_view(context)),
                a_all.len() == LEVERAGE_LEVEL_COUNT,
                b_all.len() == LEVERAGE_LEVEL_COUNT,
                a_values@ =~= a_all.subrange(i as int, LEVERAGE_LEVEL_COUNT as int),
                b_values@ =~= b_all.subrange(i as int, LEVERAGE_LEVEL_COUNT as int),
                forall|j: int| 0 <= j < LEVERAGE_LEVEL_COUNT ==> (#[trigger] a_all[j]).wf(),
                forall|j: int| 0 <= j < LEVERAGE_LEVEL_COUNT ==> (#[trigger] b_all[j]).wf(),
                forall|j: int|
                    0 <= j < LEVERAGE_LEVEL_COUNT ==> (#[trigger] a_all[j]).count_spec()
                        + b_all[j].count_spec() == total,
                total <= COUNT_CAP,
                values@.len() == i,
                forall|j: int| 0 <= j < i ==> (#[trigger] values@[j]).wf(),
                forall|j: int| 0 <= j < i ==> (#[trigger] values@[j]).count_spec() == total,
                forall|j: int|
                    0 <= j < i ==> (#[trigger] values@[j]).model() == T::combine_model(
                        a_all[j].model(),
                        b_all[j].model(),
                    ),
            decreases depth - i,
        {
            let ctx: Option<&T::Context> = match context {
                Some(table) => {
                    proof {
                        assert(ctx_view(context) == Some(table@));
                    }
                    Some(&table[i])
                },
                None => None,
            };
            let value_a = a_values.remove(0);
            let value_b = b_values.remove(0);
            values.push(T::reduce(value_a, value_b, ctx));
            i = i + 1;
        }
        PriceHistoryStatistic { depth, descriptors, values }
    }
}

/// One aggregate paired with the descriptor it belongs to.
#[derive(Debug, Clone)]
pub struct ComputedStatistic<T> {
    pub descriptor: PriceHistoryDescriptor,
    pub statistic: T,
}

impl<T> ComputedStatistic<T> {
    pub fn descriptor(&self) -> (r: PriceHistoryDescriptor)
        ensures
            r == self.descriptor,
    {
        self.descriptor
    }

    pub fn statistic(&self) -> (r: &T)
        ensures
            *r == self.statistic,
    {
        &self.statistic
    }
}

/// Whether one accumulator set is exactly the aggregate of the block
/// of paths `variants[lo..hi)`, per descriptor.
pub open spec fn covers_block<T: PriceHistoryStatisticValue>(
    stat: PriceHistoryStatistic<T>,
    variants: Seq<PriceHistoryVariants>,
    ctx: Option<Seq<T::Context>>,
    lo: int,
    hi: int,
) -> bool {
    &&& stat.stat_wf()
    &&& stat.descriptors_spec() == variants[0].descriptors_spec()
    &&& stat.stat_count() == hi - lo
    &&& forall|i: int|
        0 <= i < LEVERAGE_LEVEL_COUNT ==> (#[trigger] stat.values_spec()[i]).model()
            == column_fold::<T>(variants.subrange(lo, hi), i, ctx_for(ctx, i))
}

/// Whether a row of accumulator sets partitions the paths into
/// adjacent blocks, in order, each set covering its block. `bounds`
/// holds the block boundaries.
pub open spec fn blocks_ok<T: PriceHistoryStatisticValue>(
    stats: Seq<PriceHistoryStatistic<T>>,
    bounds: Seq<int>,
    variants: Seq<PriceHistoryVariants>,
    ctx: Option<Seq<T::Context>>,
) -> bool {
    &&& bounds.len() == stats.len() + 1
    &&& bounds[0] == 0
    &&& bounds.last() == variants.len()
    &&& forall|j1: int, j2: int|
        0 <= j1 < j2 < bounds.len() ==> #[trigger] bounds[j1] < #[trigger] bounds[j2]
    &&& forall|j: int|
        0 <= j < stats.len() ==> covers_block(#[trigger] stats[j], variants, ctx, bounds[j], bounds[j + 1])
}

/// Folding two adjacent blocks and combining the results equals
/// folding the blocks' union: the block-level reading of
/// `lemma_column_fold_split`.
proof fn lemma_merge_covers<T: PriceHistoryStatisticValue>(
    variants: Seq<PriceHistoryVariants>,
    ctx: Option<Seq<T::Context>>,
    lo: int,
    mid: int,
    hi: int,
    i: int,
)
    requires
        0 <= lo < mid < hi <= variants.len(),
        0 <= i < LEVERAGE_LEVEL_COUNT,
        contexts_ok::<T>(ctx),
        samples_ok::<T>(variants),
    ensures
        T::combine_model(
            column_fold::<T>(variants.subrange(lo, mid), i, ctx_for(ctx, i)),
            column_fold::<T>(variants.subrange(mid, hi), i, ctx_for(ctx, i)),
        ) == column_fold::<T>(variants.subrange(lo, hi), i, ctx_for(ctx, i)),
{
    let block = variants.subrange(lo, hi);
    assert(samples_ok::<T>(block)) by {
        assert(forall|k: int| 0 <= k < block.len() ==> block[k] == variants[k + lo]);
    };
    assert(T::ctx_wf(ctx_for(ctx, i)));
    lemma_column_fold_split::<T>(block, mid - lo, i, ctx_for(ctx, i));
    assert(block.subrange(0, mid - lo) =~= variants.subrange(lo, mid));
    assert(block.subrange(mid - lo, block.len() as int) =~= variants.subrange(mid, hi));
}

/// Builds one per-path accumulator set per simulated path and combines
/// them into one aggregate per descriptor by a balanced reduction
/// tree: repeated rounds of pairwise merges of adjacent sets. By the
/// associativity each statistic proves, the models reached equal the
/// in-order fold of every path — and so the models of any other
/// reduction tree over the same path order.
pub fn calculate_statistic<T: PriceHistoryStatisticValue>(
    variants: &Vec<PriceHistoryVariants>,
    context: Option<&Vec<T::Context>>,
) -> (r: Vec<ComputedStatistic<T>>)
    requires
        1 <= variants@.len() <= COUNT_CAP,
        aligned_variants(variants@),
        contexts_ok::<T>(ctx_view(context)),
        samples_ok::<T>(variants@),
    ensures
        r@.len() == LEVERAGE_LEVEL_COUNT,
        forall|i: int|
            0 <= i < LEVERAGE_LEVEL_COUNT ==> (#[trigger] r@[i]).descriptor
                == variants@[0].descriptors_spec()[i],
        forall|i: int| 0 <= i < LEVERAGE_LEVEL_COUNT ==> (#[trigger] r@[i]).statistic.wf(),
        forall|i: int|
            0 <= i < LEVERAGE_LEVEL_COUNT ==> (#[trigger] r@[i]).statistic.count_spec()
                == variants@.len(),
        forall|i: int|
            0 <= i < LEVERAGE_LEVEL_COUNT ==> (#[trigger] r@[i]).statistic.model() == column_fold::<
                T,
            >(variants@, i, ctx_for(ctx_view(context), i)),
{
    let ghost ctxv = ctx_view(context);
    let n = variants.len();
    let mut stats: Vec<PriceHistoryStatistic<T>> = Vec::new();
    let mut k: usize = 0;
    while k < n
        invariant
            0 <= k <= n,
            n == variants@.len(),
            1 <= variants@.len() <= COUNT_CAP,
            aligned_variants(variants@),
            contexts_ok::<T>(ctxv),
            samples_ok::<T>(variants@),
            ctxv == ctx_view(context),
            stats@.len() == k,
            forall|j: int|
                0 <= j < k ==> covers_block(#[trigger] stats@[j], variants@, ctxv, j, j + 1),
        decreases n - k,
    {
        let stat = PriceHistoryStatistic::<T>::new(&variants[k], context);
        proof {
            assert forall|i: int|
                0 <= i < LEVERAGE_LEVEL_COUNT implies (#[trigger] stat.values_spec()[i]).model()
                == column_fold::<T>(
                variants@.subrange(k as int, k + 1),
                i,
                ctx_for(ctxv, i),
            ) by {
                assert(variants@.subrange(k as int, k + 1)[0] == variants@[k as int]);
            };
        }
        stats.push(stat);
        k = k + 1;
    }
    let ghost mut bounds: Seq<int> = Seq::new((n + 1) as nat, |t: int| t);
    while stats.len() > 1
        invariant
            1 <= stats@.len(),
            n == variants@.len(),
            1 <= variants@.len() <= COUNT_CAP,
            aligned_variants(variants@),
            contexts_ok::<T>(ctxv),
            samples_ok::<T>(variants@),
            ctxv == ctx_view(context),
            blocks_ok(stats@, bounds, variants@, ctxv),
        decreases stats@.len(),
    {
        let ghost original = stats@;
        let ghost ob = bounds;
        let ghost row_len = original.len() as int;
        let mut next: Vec<PriceHistoryStatistic<T>> = Vec::new();
        while stats.len() >= 2
            invariant
                n == variants@.len(),
                1 <= variants@.len() <= COUNT_CAP,
                aligned_variants(variants@),
                contexts_ok::<T>(ctxv),
                samples_ok::<T>(variants@),
                ctxv == ctx_view(context),
                row_len == original.len(),
                row_len >= 2,
                blocks_ok(original, ob, variants@, ctxv),
                2 * next@.len() <= row_len,
                stats@ =~= original.skip(2 * next@.len() as int),
                forall|t: int|
                    0 <= t < next@.len() ==> covers_block(
                        #[trigger] next@[t],
                        variants@,
                        ctxv,
                        ob[2 * t],
                        ob[2 * t + 2],
                    ),
            decreases stats@.len(),
        {
            let ghost p = next@.len() as int;
            let value_a = stats.remove(0);
            let value_b = stats.remove(0);
            proof {
                assert(value_a == original[2 * p]);
                assert(value_b == original[2 * p + 1]);
                assert(stats@ =~= original.skip(2 * p + 2));
                assert(ob[2 * p] >= ob[0]);
                assert(ob[2 * p + 2] <= ob[row_len]);
            }
            let merged = PriceHistoryStatistic::merge_statistics(value_a, value_b, context);
            proof {
                assert forall|i: int|
                    0 <= i < LEVERAGE_LEVEL_COUNT implies (#[trigger] merged.values_spec()[
                    i]).model() == column_fold::<T>(
                    variants@.subrange(ob[2 * p], ob[2 * p + 2]),
                    i,
                    ctx_for(ctxv, i),
                ) by {
                    lemma_merge_covers::<T>(
                        variants@,
                        ctxv,
                        ob[2 * p],
                        ob[2 * p + 1],
                        ob[2 * p + 2],
                        i,
                    );
                };
            }
            next.push(merged);
        }
        let ghost pairs = next@.len() as int;
        if stats.len() == 1 {
            let leftover = stats.remove(0);
            proof {
                assert(leftover == original[2 * pairs]);
                assert(2 * pairs + 1 == row_len);
            }
            next.push(leftover);
        }
        proof {
            bounds = Seq::new((next@.len() + 1) as nat, |t: int|
                if 2 * t <= row_len {
                    ob[2 * t]
                } else {
                    ob[row_len]
                });
            assert(bounds[0] == 0);
            assert(bounds.last() == variants@.len());
            assert forall|t: int|
                0 <= t < next@.len() implies covers_block(
                #[trigger] next@[t],
                variants@,
                ctxv,
                bounds[t],
                bounds[t + 1],
            ) by {
                if t < pairs {
                    assert(bounds[t] == ob[2 * t]);
                    assert(bounds[t + 1] == ob[2 * t + 2]);
                } else {
                    assert(bounds[t] == ob[2 * t]);
                    assert(bounds[t + 1] == ob[row_len]);
                }
            };
        }
        stats = next;
    }
    let mut single = stats.remove(0);
    proof {
        assert(covers_block(single, variants@, ctxv, bounds[0], bounds[1]));
        assert(variants@.subrange(0, variants@.len() as int) =~= variants@);
    }
    let ghost final_values = single.values_spec();
    let ghost final_descriptors = single.descriptors_spec();
    let depth = single.depth;
    let descriptors = single.descriptors;
    let mut values = single.values;
    let mut results: Vec<ComputedStatistic<T>> = Vec::new();
    let mut i: usize = 0;
    while i < depth
        invariant
            0 <= i <= depth,
            depth == LEVERAGE_LEVEL_COUNT,
            final_values.len() == LEVERAGE_LEVEL_COUNT,
            descriptors@ == final_descriptors,
            final_descriptors.len() == LEVERAGE_LEVEL_COUNT,
            values@ =~= final_values.subrange(i as int, LEVERAGE_LEVEL_COUNT as int),
            results@.len() == i,
            forall|j: int|
                0 <= j < i ==> (#[trigger] results@[j]).descriptor == final_descriptors[j]
                    && results@[j].statistic == final_values[j],
        decreases depth - i,
    {
        let descriptor = descriptors[i];
        let statistic = values.remove(0);
        results.push(ComputedStatistic { descriptor, statistic });
        i = i + 1;
    }
    results
}

/// Running sums for the mean of the raw and the period-annualized
/// return.
#[derive(Debug, Clone, Copy)]
pub struct AveragePriceChange {
    price_change_sum: i128,
    annualized_price_change_sum: i128,
    count: u64,
}

/// The mathematical content of an `AveragePriceChange`.
pub struct AverageModel {
    pub price_change_sum: int,
    pub annualized_price_change_sum: int,
    pub count: nat,
}

impl AveragePriceChange {
    /// The mean raw return of the samples.
    pub fn average(&self) -> (r: PriceChange)
        requires
            self.wf(),
            self.count_spec() > 0,
        ensures
            r@ == div_round(self.model().price_change_sum, self.model().count as int),
    {
        proof {
            lemma_div_round_bounded(
                self.price_change_sum as int,
                self.count as int,
                i64::MAX as int,
            );
        }
        let decimal = div_round_i128(self.price_change_sum, self.count);
        PriceChange::new(Percent::from_decimal(decimal as i64))
    }

    /// The mean annualized return of the samples.
    pub fn annualized_average(&self) -> (r: PriceChange)
        requires
            self.wf(),
            self.count_spec() > 0,
        ensures
            r@ == div_round(self.model().annualized_price_change_sum, self.model().count as int),
    {
        proof {
            lemma_div_round_bounded(
                self.annualized_price_change_sum as int,
                self.count as int,
                i64::MAX as int,
            );
        }
        let decimal = div_round_i128(self.annualized_price_change_sum, self.count);
        PriceChange::new(Percent::from_decimal(decimal as i64))
    }
}

impl PriceHistoryStatisticValue for AveragePriceChange {
    type Context = ();

    type Model = AverageModel;

    closed spec fn wf(&self) -> bool {
        &&& -(self.count as int * (i64::MAX as int)) <= self.price_change_sum as int <= self.count
            as int * (i64::MAX as int)
        &&& -(self.count as int * (i64::MAX as int)) <= self.annualized_price_change_sum as int
            <= self.count as int * (i64::MAX as int)
    }

    closed spec fn model(&self) -> AverageModel {
        AverageModel {
            price_change_sum: self.price_change_sum as int,
            annualized_price_change_sum: self.annualized_price_change_sum as int,
            count: self.count as nat,
        }
    }

    open spec fn model_wf(m: AverageModel) -> bool {
        true
    }

    closed spec fn count_spec(&self) -> nat {
        self.count as nat
    }

    open spec fn ctx_wf(context: Option<()>) -> bool {
        true
    }

    open spec fn sample_ok(price_change: PriceChange, descriptor: PriceHistoryDescriptor) -> bool {
        price_change@ >= -SCALE && descriptor.period.days_spec() > 0
    }

    open spec fn new_model(
        price_change: PriceChange,
        descriptor: PriceHistoryDescriptor,
        context: Option<()>,
    ) -> AverageModel {
        AverageModel {
            price_change_sum: price_change@,
            annualized_price_change_sum: annualized_decimal(
                price_change@,
                descriptor.period.days_spec(),
            ),
            count: 1,
        }
    }

    open spec fn combine_model(a: AverageModel, b: AverageModel) -> AverageModel {
        AverageModel {
            price_change_sum: a.price_change_sum + b.price_change_sum,
            annualized_price_change_sum: a.annualized_price_change_sum
                + b.annualized_price_change_sum,
            count: a.count + b.count,
        }
    }

    open spec fn identity_model() -> AverageModel {
        AverageModel { price_change_sum: 0, annualized_price_change_sum: 0, count: 0 }
    }

    fn identity() -> (r: Self) {
        AveragePriceChange { price_change_sum: 0, annualized_price_change_sum: 0, count: 0 }
    }

    fn new(
        price_change: PriceChange,
        descriptor: &PriceHistoryDescriptor,
        _context: Option<&()>,
    ) -> (r: Self) {
        let annualized = price_change.annualized_return(descriptor.period());
        proof {
            crate::price_change::lemma_price_change_view_bounds(price_change);
            crate::price_change::lemma_price_change_view_bounds(annualized);
        }
        AveragePriceChange {
            price_change_sum: price_change.percent_change().as_decimal() as i128,
            annualized_price_change_sum: annualized.percent_change().as_decimal() as i128,
            count: 1,
        }
    }

    fn reduce(a: Self, b: Self, _context: Option<&()>) -> (r: Self) {
        AveragePriceChange {
            price_change_sum: a.price_change_sum + b.price_change_sum,
            annualized_price_change_sum: a.annualized_price_change_sum
                + b.annualized_price_change_sum,
            count: a.count + b.count,
        }
    }

    proof fn wf_model(&self) {
    }

    proof fn new_model_wf(
        price_change: PriceChange,
        descriptor: PriceHistoryDescriptor,
        context: Option<()>,
    ) {
    }

    proof fn combine_model_wf(a: AverageModel, b: AverageModel) {
    }

    proof fn combine_model_assoc(a: AverageModel, b: AverageModel, c: AverageModel) {
    }

    proof fn identity_model_neutral(m: AverageModel) {
    }
}

/// The externally supplied population mean a standard deviation is
/// computed against: the context of the two-phase computation.
#[derive(Debug, Clone, Copy)]
pub struct StandardDeviationPriceChangeContext {
    pub average: Percent,
}

impl StandardDeviationPriceChangeContext {
    pub fn new(average: PriceChange) -> (r: Self)
        ensures
            r.average@ == average@,
    {
        StandardDeviationPriceChangeContext { average: average.percent_change() }
    }
}

/// Running sum of squared deviations from the externally supplied
/// population mean.
#[derive(Debug, Clone, Copy)]
pub struct StandardDeviationPriceChange {
    variance_sum: u128,
    count: u64,
}

/// The mathematical content of a `StandardDeviationPriceChange`. The
/// variance sum saturates at the top of its representation, and its
/// combination does the same, which keeps the combination associative.
pub struct SpreadModel {
    pub variance_sum: nat,
    pub count: nat,
}

/// Addition of non-negative quantities saturating at the largest
/// representable variance sum.
pub open spec fn sat_add_variance(a: nat, b: nat) -> nat {
    if a + b > u128::MAX {
        u128::MAX as nat
    } else {
        a + b
    }
}

impl StandardDeviationPriceChange {
    /// The population standard deviation: the square root of the mean
    /// squared deviation, bracketed exactly on the fixed-point grid.
    pub fn stdev(&self) -> (r: PriceChange)
        requires
            self.wf(),
            self.count_spec() > 0,
        ensures
            sq(r@) <= self.model().variance_sum / self.model().count,
            r@ < i64::MAX ==> self.model().variance_sum / self.model().count < sq(r@ + 1),
            r@ >= 0,
    {
        let mean_square: u128 = self.variance_sum / (self.count as u128);
        let root: u64 = isqrt(mean_square);
        if root > i64::MAX as u64 {
            proof {
                crate::fixed::lemma_square_mono(i64::MAX as int, root as int);
            }
            PriceChange::new(Percent::from_decimal(i64::MAX))
        } else {
            PriceChange::new(Percent::from_decimal(root as i64))
        }
    }
}

impl PriceHistoryStatisticValue for StandardDeviationPriceChange {
    type Context = StandardDeviationPriceChangeContext;

    type Model = SpreadModel;

    open spec fn wf(&self) -> bool {
        true
    }

    closed spec fn model(&self) -> SpreadModel {
        SpreadModel { variance_sum: self.variance_sum as nat, count: self.count as nat }
    }

    open spec fn model_wf(m: SpreadModel) -> bool {
        m.variance_sum <= u128::MAX
    }

    closed spec fn count_spec(&self) -> nat {
        self.count as nat
    }

    open spec fn ctx_wf(context: Option<StandardDeviationPriceChangeContext>) -> bool {
        context is Some
    }

    open spec fn sample_ok(price_change: PriceChange, descriptor: PriceHistoryDescriptor) -> bool {
        true
    }

    open spec fn new_model(
        price_change: PriceChange,
        descriptor: PriceHistoryDescriptor,
        context: Option<StandardDeviationPriceChangeContext>,
    ) -> SpreadModel {
        SpreadModel {
            variance_sum: sq(context.unwrap().average@ - price_change@) as nat,
            count: 1,
        }
    }

    open spec fn combine_model(a: SpreadModel, b: SpreadModel) -> SpreadModel {
        SpreadModel {
            variance_sum: sat_add_variance(a.variance_sum, b.variance_sum),
            count: a.count + b.count,
        }
    }

    open spec fn identity_model() -> SpreadModel {
        SpreadModel { variance_sum: 0, count: 0 }
    }

    fn identity() -> (r: Self) {
        StandardDeviationPriceChange { variance_sum: 0, count: 0 }
    }

    fn new(
        price_change: PriceChange,
        _descriptor: &PriceHistoryDescriptor,
        context: Option<&StandardDeviationPriceChangeContext>,
    ) -> (r: Self) {
        let ctx = context.unwrap();
        proof {
            crate::percent::lemma_percent_view_bounds(ctx.average);
            crate::price_change::lemma_price_change_view_bounds(price_change);
        }
        let diff: i128 = (ctx.average.as_decimal() as i128) - (price_change.percent_change()
            .as_decimal() as i128);
        let magnitude: u128 = if diff >= 0 {
            diff as u128
        } else {
            (-diff) as u128
        };
        proof {
            let d = ctx.average@ - price_change@;
            assert(magnitude as int * (magnitude as int) == sq(d)) by (nonlinear_arith)
                requires
                    magnitude as int == if d >= 0 { d } else { -d },
            ;
            crate::fixed::lemma_square_mono(magnitude as int, u64::MAX as int);
        }
        let variance_sum: u128 = magnitude * magnitude;
        StandardDeviationPriceChange { variance_sum, count: 1 }
    }

    fn reduce(a: Self, b: Self, _context: Option<&StandardDeviationPriceChangeContext>) -> (r:
        Self) {
        let variance_sum: u128 = if a.variance_sum > u128::MAX - b.variance_sum {
            u128::MAX
        } else {
            a.variance_sum + b.variance_sum
        };
        StandardDeviationPriceChange { variance_sum, count: a.count + b.count }
    }

    proof fn wf_model(&self) {
    }

    proof fn new_model_wf(
        price_change: PriceChange,
        descriptor: PriceHistoryDescriptor,
        context: Option<StandardDeviationPriceChangeContext>,
    ) {
        let d = context.unwrap().average@ - price_change@;
        crate::percent::lemma_percent_view_bounds(context.unwrap().average);
        crate::price_change::lemma_price_change_view_bounds(price_change);
        if d >= 0 {
            crate::fixed::lemma_square_mono(d, u64::MAX as int);
        } else {
            crate::fixed::lemma_square_mono(-d, u64::MAX as int);
            assert(sq(d) == (-d) * (-d)) by (nonlinear_arith);
        }
    }

    proof fn combine_model_wf(a: SpreadModel, b: SpreadModel) {
    }

    proof fn combine_model_assoc(a: SpreadModel, b: SpreadModel, c: SpreadModel) {
    }

    proof fn identity_model_neutral(m: SpreadModel) {
    }
}

} // verus!
