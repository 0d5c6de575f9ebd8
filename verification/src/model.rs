//! One metric's histogram: its bounds, cumulative bucket counts, sum and count.

use crate::binary64::Binary64;
use crate::metrics_key::MetricsKey;
use crate::render::{
    compact_text, export_block_text, format_compact, format_export_block, format_log_line,
    labelled, log_line_text, Labelled,
};
use vstd::prelude::*;

verus! {

/// Bounds are strictly increasing when each is below the next.
pub open spec fn strictly_increasing(bounds: Seq<Binary64>) -> bool {
    forall|i: int| 0 <= i < bounds.len() - 1 ==> (#[trigger] bounds[i]).lt(bounds[i + 1])
}

/// Bounds that a histogram can be made with: at least one, strictly increasing.
pub open spec fn valid_bounds(bounds: Seq<Binary64>) -> bool {
    bounds.len() > 0 && strictly_increasing(bounds)
}

/// What a histogram holds.
///
/// `bucket_counts` has a slot for each bound and a last one for the overflow
/// bucket. The slot of a bound counts the samples at or below the bound; the
/// overflow slot counts every sample.
pub struct HistogramView {
    pub bounds: Seq<Binary64>,
    pub bucket_counts: Seq<nat>,
    pub sum: Binary64,
    pub count: nat,
}

impl HistogramView {
    /// The histogram over `bounds` that has seen no sample.
    pub open spec fn fresh(bounds: Seq<Binary64>) -> HistogramView {
        HistogramView {
            bounds,
            bucket_counts: Seq::new(bounds.len() + 1, |i: int| 0nat),
            sum: Binary64 { bits: 0 },
            count: 0,
        }
    }

    /// The bounds are valid, the counts are cumulative, and the overflow slot
    /// holds the number of samples.
    pub open spec fn wf(self) -> bool {
        &&& valid_bounds(self.bounds)
        &&& self.bucket_counts.len() == self.bounds.len() + 1
        &&& forall|i: int|
            0 <= i < self.bounds.len() ==> #[trigger] self.bucket_counts[i]
                <= self.bucket_counts[i + 1]
        &&& self.bucket_counts[self.bounds.len() as int] == self.count
    }

    /// Whether slot `i` counts `sample`: the overflow slot counts every
    /// sample, the slot of a bound those at or below the bound.
    pub open spec fn counts_in(self, i: int, sample: Binary64) -> bool {
        i >= self.bounds.len() || sample.le(self.bounds[i])
    }

    /// The histogram after one more sample.
    pub open spec fn record(self, sample: Binary64) -> HistogramView {
        HistogramView {
            bounds: self.bounds,
            bucket_counts: Seq::new(
                self.bucket_counts.len(),
                |i: int|
                    if self.counts_in(i, sample) {
                        self.bucket_counts[i] + 1
                    } else {
                        self.bucket_counts[i]
                    },
            ),
            sum: self.sum.plus(sample),
            count: self.count + 1,
        }
    }

    /// The histogram after the samples, recorded one by one in their order.
    pub open spec fn record_many(self, samples: Seq<Binary64>) -> HistogramView
        decreases samples.len(),
    {
        if samples.len() == 0 {
            self
        } else {
            self.record_many(samples.drop_last()).record(samples.last())
        }
    }

    /// Each bound with its cumulative count. The overflow bucket is left
    /// out: its count is `count`.
    pub open spec fn buckets(self) -> Seq<(Binary64, nat)> {
        Seq::new(self.bounds.len(), |i: int| (self.bounds[i], self.bucket_counts[i]))
    }

    /// Each bound as text, with its cumulative count.
    pub open spec fn labelled_buckets(self) -> Seq<Labelled> {
        Seq::new(self.bounds.len(), |i: int| (self.bounds[i].text(), self.bucket_counts[i]))
    }

    /// The compact form: `bound:count` for each bound, separated by commas.
    pub open spec fn compact(self) -> Seq<char> {
        compact_text(self.labelled_buckets())
    }

    /// The log line of the histogram under `key`.
    pub open spec fn log_line(self, key: MetricsKey) -> Seq<char> {
        log_line_text(key.name(), self.labelled_buckets())
    }

    /// The exposition block of the histogram under `key`.
    pub open spec fn export_block(self, key: MetricsKey) -> Seq<char> {
        export_block_text(key.name(), self.labelled_buckets(), self.sum.text(), self.count)
    }
}

/// One metric's histogram.
#[derive(Clone, Debug)]
pub struct HistogramValue {
    pub(crate) count: u64,
    pub(crate) sum: Binary64,
    pub(crate) bounds: Vec<Binary64>,
    pub(crate) bucket_counts: Vec<u64>,
}

impl View for HistogramValue {
    type V = HistogramView;

    closed spec fn view(&self) -> HistogramView {
        HistogramView {
            bounds: self.bounds@,
            bucket_counts: Seq::new(
                self.bucket_counts@.len(),
                |i: int| self.bucket_counts@[i] as nat,
            ),
            sum: self.sum,
            count: self.count as nat,
        }
    }
}

impl HistogramValue {
    /// Whether the histogram is well formed. Every histogram that this
    /// library hands out is.
    pub open spec fn wf(&self) -> bool {
        self@.wf()
    }

    /// Makes a histogram over `bounds` that has seen no sample. There is
    /// none where `bounds` is empty or not strictly increasing.
    pub fn new(bounds: &[Binary64]) -> (r: Option<HistogramValue>)
        ensures
            r is Some <==> valid_bounds(bounds@),
            r is Some ==> r->0@ == HistogramView::fresh(bounds@) && r->0.wf(),
    {
        let n: usize = bounds.len();
        if n == 0 {
            return None;
        }
        let mut own: Vec<Binary64> = Vec::new();
        let mut counts: Vec<u64> = Vec::new();
        counts.push(0);
        let mut i: usize = 0;
        while i < n
            invariant
                n == bounds@.len(),
                i <= n,
                own@ == bounds@.take(i as int),
                counts@.len() == i + 1,
                forall|j: int| 0 <= j < counts@.len() ==> counts@[j] == 0,
                forall|j: int| 0 <= j < i - 1 ==> (#[trigger] bounds@[j]).lt(bounds@[j + 1]),
            decreases n - i,
        {
            if i > 0 && !bounds[i - 1].below(bounds[i]) {
                return None;
            }
            own.push(bounds[i]);
            counts.push(0);
            assert(own@ =~= bounds@.take(i + 1));
            i += 1;
        }
        assert(own@ =~= bounds@);
        let r = HistogramValue { count: 0, sum: Binary64::zero(), bounds: own, bucket_counts: counts };
        assert(r@.bucket_counts =~= HistogramView::fresh(bounds@).bucket_counts);
        Some(r)
    }

    /// Records a sample: it adds to the sum and the count, and to the count
    /// of every bucket whose bound is at or above it. A NaN is at or below
    /// no bound.
    pub fn record(&mut self, sample: Binary64)
        requires
            old(self).wf(),
            old(self)@.count < u64::MAX,
        ensures
            final(self)@ == old(self)@.record(sample),
            final(self).wf(),
    {
        let n: usize = self.bounds.len();
        proof {
            record_effect(self@, sample);
            assert forall|j: int| 0 <= j <= n implies self.bucket_counts@[j] < u64::MAX by {
                counts_below_total(self@, j);
                assert(self@.bucket_counts[j] == self.bucket_counts@[j]);
            }
        }
        self.sum = self.sum.add(sample);
        self.count = self.count + 1;
        let mut i: usize = 0;
        while i < n
            invariant
                i <= n,
                n == self.bounds@.len(),
                self.bounds@ == old(self).bounds@,
                self.sum == old(self).sum.plus(sample),
                self.count == old(self).count + 1,
                self.bucket_counts@.len() == n + 1,
                old(self).bucket_counts@.len() == n + 1,
                forall|j: int| 0 <= j <= n ==> old(self).bucket_counts@[j] < u64::MAX,
                forall|j: int|
                    0 <= j < i ==> self.bucket_counts@[j] == old(self)@.record(
                        sample,
                    ).bucket_counts[j],
                forall|j: int| i <= j <= n ==> self.bucket_counts@[j] == old(self).bucket_counts@[j],
            decreases n - i,
        {
            if sample.at_most(self.bounds[i]) {
                let c: u64 = self.bucket_counts[i];
                self.bucket_counts[i] = c + 1;
            }
            assert(old(self)@.counts_in(i as int, sample) == sample.le(self.bounds@[i as int]));
            assert(self.bucket_counts@[i as int] == old(self)@.record(sample).bucket_counts[i as int]);
            i += 1;
        }
        let c: u64 = self.bucket_counts[n];
        self.bucket_counts[n] = c + 1;
        assert(self@.bucket_counts =~= old(self)@.record(sample).bucket_counts);
    }

    /// Records the samples one by one, in their order.
    pub fn record_many(&mut self, samples: &[Binary64])
        requires
            old(self).wf(),
            old(self)@.count + samples@.len() <= u64::MAX,
        ensures
            final(self)@ == old(self)@.record_many(samples@),
            final(self).wf(),
    {
        let mut i: usize = 0;
        while i < samples.len()
            invariant
                i <= samples@.len(),
                self.wf(),
                self@ == old(self)@.record_many(samples@.take(i as int)),
                self@.count == old(self)@.count + i,
                old(self)@.count + samples@.len() <= u64::MAX,
            decreases samples@.len() - i,
        {
            self.record(samples[i]);
            proof {
                assert(samples@.take(i + 1).drop_last() =~= samples@.take(i as int));
                assert(samples@.take(i + 1).last() == samples@[i as int]);
            }
            i += 1;
        }
        assert(samples@.take(i as int) =~= samples@);
    }

    /// The sum of the samples, added in the order in which they came.
    pub fn sum(&self) -> (r: Binary64)
        ensures
            r == self@.sum,
    {
        self.sum
    }

    /// The number of samples.
    pub fn count(&self) -> (r: u64)
        ensures
            r == self@.count,
    {
        self.count
    }

    /// Each bound with its cumulative count, in the order of the bounds. The
    /// overflow bucket is left out: its count is `count`.
    pub fn buckets(&self) -> (r: Vec<(Binary64, u64)>)
        requires
            self.wf(),
        ensures
            bucket_pairs(r@) == self@.buckets(),
    {
        let n: usize = self.bounds.len();
        let mut r: Vec<(Binary64, u64)> = Vec::new();
        let mut i: usize = 0;
        while i < n
            invariant
                i <= n,
                n == self.bounds@.len(),
                self.bucket_counts@.len() == n + 1,
                r@.len() == i,
                forall|j: int|
                    0 <= j < i ==> #[trigger] r@[j] == (self.bounds@[j], self.bucket_counts@[j]),
            decreases n - i,
        {
            r.push((self.bounds[i], self.bucket_counts[i]));
            i += 1;
        }
        assert(bucket_pairs(r@) =~= self@.buckets());
        r
    }

    fn labelled_buckets(&self) -> (r: Vec<(String, u64)>)
        requires
            self.wf(),
        ensures
            labelled(r@) == self@.labelled_buckets(),
    {
        let n: usize = self.bounds.len();
        let mut r: Vec<(String, u64)> = Vec::new();
        let mut i: usize = 0;
        while i < n
            invariant
                i <= n,
                n == self.bounds@.len(),
                self.bucket_counts@.len() == n + 1,
                r@.len() == i,
                forall|j: int|
                    0 <= j < i ==> (#[trigger] r@[j]).0@ == self.bounds@[j].text() && r@[j].1
                        == self.bucket_counts@[j],
            decreases n - i,
        {
            r.push((self.bounds[i].to_text(), self.bucket_counts[i]));
            i += 1;
        }
        assert(labelled(r@) =~= self@.labelled_buckets());
        r
    }

    /// Writes the histogram in compact form: `bound:count` for each bound,
    /// separated by commas.
    pub fn to_text(&self) -> (r: String)
        requires
            self.wf(),
        ensures
            r@ == self@.compact(),
    {
        let buckets = self.labelled_buckets();
        format_compact(&buckets)
    }

    /// Writes the log line of the histogram under `key`.
    pub fn log_line(&self, key: &MetricsKey) -> (r: String)
        requires
            self.wf(),
        ensures
            r@ == self@.log_line(*key),
    {
        let buckets = self.labelled_buckets();
        format_log_line(key.get_key(), &buckets)
    }

    /// Writes the exposition block of the histogram under `key`.
    pub fn export_block(&self, key: &MetricsKey) -> (r: String)
        requires
            self.wf(),
        ensures
            r@ == self@.export_block(*key),
    {
        let buckets = self.labelled_buckets();
        let sum = self.sum.to_text();
        format_export_block(key.get_key(), &buckets, sum.as_str(), self.count)
    }
}

/// The pairs that `buckets` returns, with their counts as natural numbers.
pub open spec fn bucket_pairs(pairs: Seq<(Binary64, u64)>) -> Seq<(Binary64, nat)> {
    Seq::new(pairs.len(), |i: int| (pairs[i].0, pairs[i].1 as nat))
}

/// No slot of a well-formed histogram holds more than the count.
pub proof fn counts_below_total(h: HistogramView, i: int)
    requires
        h.wf(),
        0 <= i <= h.bounds.len(),
    ensures
        h.bucket_counts[i] <= h.count,
    decreases h.bounds.len() - i,
{
    if i < h.bounds.len() {
        counts_below_total(h, i + 1);
    }
}

/// A sample at or below a bound is at or below every bound after it.
pub proof fn le_extends_along_bounds(bounds: Seq<Binary64>, sample: Binary64, i: int, j: int)
    requires
        strictly_increasing(bounds),
        0 <= i <= j < bounds.len(),
        sample.le(bounds[i]),
    ensures
        sample.le(bounds[j]),
    decreases j - i,
{
    if i < j {
        le_extends_along_bounds(bounds, sample, i, j - 1);
        assert(bounds[j - 1].lt(bounds[j - 1 + 1]));
    }
}

/// A fresh histogram is well formed, has a bucket for each bound, and all
/// its counts are zero.
pub proof fn fresh_is_empty(bounds: Seq<Binary64>)
    requires
        valid_bounds(bounds),
    ensures
        HistogramView::fresh(bounds).wf(),
        HistogramView::fresh(bounds).buckets().len() == bounds.len(),
        forall|i: int|
            0 <= i < bounds.len() ==> #[trigger] HistogramView::fresh(bounds).buckets()[i] == (
                bounds[i],
                0nat,
            ),
        HistogramView::fresh(bounds).count == 0,
        HistogramView::fresh(bounds).sum.bits == 0,
{
}

/// Recording a sample adds one to the count, adds the sample to the sum,
/// adds one to the count of each bucket whose bound is at or above the sample
/// and leaves the others as they were; the histogram stays well formed.
pub proof fn record_effect(h: HistogramView, sample: Binary64)
    requires
        h.wf(),
    ensures
        h.record(sample).wf(),
        h.record(sample).bounds == h.bounds,
        h.record(sample).count == h.count + 1,
        h.record(sample).sum == h.sum.plus(sample),
        h.record(sample).buckets().len() == h.buckets().len(),
        forall|i: int|
            0 <= i < h.bounds.len() ==> (#[trigger] h.record(sample).buckets()[i]).1 == h.buckets()[i].1
                + (if sample.le(h.bounds[i]) {
                1nat
            } else {
                0nat
            }),
        sample.is_nan() ==> h.record(sample).buckets() == h.buckets(),
{
    let r = h.record(sample);
    assert forall|i: int| 0 <= i < r.bounds.len() implies #[trigger] r.bucket_counts[i]
        <= r.bucket_counts[i + 1] by {
        if h.counts_in(i, sample) && i + 1 < h.bounds.len() {
            le_extends_along_bounds(h.bounds, sample, i, i + 1);
        }
    }
    if sample.is_nan() {
        assert(r.buckets() =~= h.buckets());
    }
}

/// Recording keeps a histogram well formed, whatever the samples.
pub proof fn record_many_effect(h: HistogramView, samples: Seq<Binary64>)
    requires
        h.wf(),
    ensures
        h.record_many(samples).wf(),
        h.record_many(samples).bounds == h.bounds,
        h.record_many(samples).count == h.count + samples.len(),
    decreases samples.len(),
{
    if samples.len() > 0 {
        record_many_effect(h, samples.drop_last());
        record_effect(h.record_many(samples.drop_last()), samples.last());
    }
}

/// Recording two runs of samples one after the other is recording their
/// concatenation.
pub proof fn record_many_concat(h: HistogramView, first: Seq<Binary64>, second: Seq<Binary64>)
    ensures
        h.record_many(first + second) == h.record_many(first).record_many(second),
    decreases second.len(),
{
    if second.len() == 0 {
        assert(first + second =~= first);
    } else {
        record_many_concat(h, first, second.drop_last());
        assert((first + second).drop_last() =~= first + second.drop_last());
        assert((first + second).last() == second.last());
    }
}

/// How many of the samples slot `i` counts.
pub open spec fn tally(h: HistogramView, i: int, samples: Seq<Binary64>) -> nat
    decreases samples.len(),
{
    if samples.len() == 0 {
        0
    } else {
        tally(h, i, samples.drop_last()) + (if h.counts_in(i, samples.last()) {
            1nat
        } else {
            0nat
        })
    }
}

/// After a run of samples each slot has grown by the number of samples that
/// it counts.
pub proof fn record_many_counts(h: HistogramView, samples: Seq<Binary64>)
    ensures
        h.record_many(samples).bounds == h.bounds,
        h.record_many(samples).bucket_counts.len() == h.bucket_counts.len(),
        h.record_many(samples).count == h.count + samples.len(),
        forall|i: int|
            0 <= i < h.bucket_counts.len() ==> #[trigger] h.record_many(samples).bucket_counts[i]
                == h.bucket_counts[i] + tally(h, i, samples),
    decreases samples.len(),
{
    if samples.len() > 0 {
        let before = h.record_many(samples.drop_last());
        record_many_counts(h, samples.drop_last());
        assert forall|i: int| 0 <= i < h.bucket_counts.len() implies #[trigger] h.record_many(
            samples,
        ).bucket_counts[i] == h.bucket_counts[i] + tally(h, i, samples) by {
            assert(before.counts_in(i, samples.last()) == h.counts_in(i, samples.last()));
        }
    }
}

/// Taking one sample out of a run lowers a slot's tally by what that sample
/// added to it.
pub proof fn tally_remove(h: HistogramView, i: int, samples: Seq<Binary64>, at: int)
    requires
        0 <= at < samples.len(),
    ensures
        tally(h, i, samples) == tally(h, i, samples.remove(at)) + (if h.counts_in(i, samples[at]) {
            1nat
        } else {
            0nat
        }),
    decreases samples.len(),
{
    if at == samples.len() - 1 {
        assert(samples.remove(at) =~= samples.drop_last());
    } else {
        tally_remove(h, i, samples.drop_last(), at);
        assert(samples.remove(at).drop_last() =~= samples.drop_last().remove(at));
        assert(samples.remove(at).last() == samples.last());
    }
}

/// Two runs that hold the same samples, in whatever order, give a slot the
/// same tally.
pub proof fn tally_of_permutation(h: HistogramView, i: int, a: Seq<Binary64>, b: Seq<Binary64>)
    requires
        a.to_multiset() == b.to_multiset(),
    ensures
        tally(h, i, a) == tally(h, i, b),
    decreases a.len(),
{
    broadcast use vstd::seq_lib::group_to_multiset_ensures;

    a.to_multiset_ensures();
    b.to_multiset_ensures();
    if a.len() == 0 {
    } else {
        let x = a.last();
        assert(a.drop_last().push(x) =~= a);
        assert(a.to_multiset().count(x) > 0);
        assert(b.contains(x));
        let at = choose|at: int| 0 <= at < b.len() && b[at] == x;
        assert(a.remove(a.len() - 1) =~= a.drop_last());
        assert(a.drop_last().to_multiset() =~= b.remove(at).to_multiset());
        tally_of_permutation(h, i, a.drop_last(), b.remove(at));
        tally_remove(h, i, b, at);
    }
}

/// The counts after a run of samples do not depend on the order of the
/// samples: two runs that hold the same samples leave the same bounds, the
/// same bucket counts and the same count.
pub proof fn record_many_order_irrelevant(h: HistogramView, a: Seq<Binary64>, b: Seq<Binary64>)
    requires
        a.to_multiset() == b.to_multiset(),
    ensures
        h.record_many(a).bounds == h.record_many(b).bounds,
        h.record_many(a).bucket_counts == h.record_many(b).bucket_counts,
        h.record_many(a).count == h.record_many(b).count,
        h.record_many(a).buckets() == h.record_many(b).buckets(),
{
    broadcast use vstd::seq_lib::group_to_multiset_ensures;

    record_many_counts(h, a);
    record_many_counts(h, b);
    a.to_multiset_ensures();
    b.to_multiset_ensures();
    assert forall|i: int| 0 <= i < h.bucket_counts.len() implies h.record_many(a).bucket_counts[i]
        == h.record_many(b).bucket_counts[i] by {
        tally_of_permutation(h, i, a, b);
    }
    assert(h.record_many(a).bucket_counts =~= h.record_many(b).bucket_counts);
    assert(h.record_many(a).buckets() =~= h.record_many(b).buckets());
}

} // verus!
