//! The registry: a histogram for each metric that was initialized.

use crate::binary64::Binary64;
use crate::metrics_key::{
    canonical_order, order_all_keys, ordinal_is_injective, MetricsKey, KEY_COUNT,
};
use crate::model::{bucket_pairs, valid_bounds, HistogramValue, HistogramView};
use crate::sink::{all_fit, sink_bytes, write_blocks, written, texts, ExportError};
use bytes::BytesMut;
use std::collections::hash_map::Entry;
use std::collections::HashMap;
use vstd::prelude::*;

verus! {

broadcast use vstd::std_specs::hash::group_hash_axioms;

/// What a registry holds: the histogram of each metric that was initialized.
pub type Registry = Map<MetricsKey, HistogramView>;

/// The registry after `init`: a metric that has no histogram gets a fresh
/// one where the bounds are valid. Nothing else changes.
pub open spec fn initialized(m: Registry, key: MetricsKey, bounds: Seq<Binary64>) -> Registry {
    if !m.contains_key(key) && valid_bounds(bounds) {
        m.insert(key, HistogramView::fresh(bounds))
    } else {
        m
    }
}

/// The registry after a sample was recorded for `key`.
pub open spec fn recorded(m: Registry, key: MetricsKey, sample: Binary64) -> Registry {
    if m.contains_key(key) {
        m.insert(key, m[key].record(sample))
    } else {
        m
    }
}

/// The registry after samples were recorded for `key`, one by one.
pub open spec fn recorded_many(m: Registry, key: MetricsKey, samples: Seq<Binary64>) -> Registry {
    if m.contains_key(key) {
        m.insert(key, m[key].record_many(samples))
    } else {
        m
    }
}

/// The sum under `key`, zero where the metric has no histogram.
pub open spec fn sum_of(m: Registry, key: MetricsKey) -> Binary64 {
    if m.contains_key(key) {
        m[key].sum
    } else {
        Binary64 { bits: 0 }
    }
}

/// The count under `key`, zero where the metric has no histogram.
pub open spec fn count_of(m: Registry, key: MetricsKey) -> nat {
    if m.contains_key(key) {
        m[key].count
    } else {
        0
    }
}

/// The buckets under `key`, none where the metric has no histogram.
pub open spec fn buckets_of(m: Registry, key: MetricsKey) -> Seq<(Binary64, nat)> {
    if m.contains_key(key) {
        m[key].buckets()
    } else {
        Seq::empty()
    }
}

/// The log lines of a registry: one for each metric that has a histogram,
/// in canonical order.
pub open spec fn log_lines(m: Registry) -> Seq<Seq<char>> {
    canonical_order().filter_map(line_of(m))
}

/// The exposition blocks of a registry: one for each metric that has a
/// histogram, in canonical order.
pub open spec fn export_blocks(m: Registry) -> Seq<Seq<char>> {
    canonical_order().filter_map(block_of(m))
}

/// What turns a metric into its exposition block, if it has a histogram.
pub open spec fn block_of(m: Registry) -> spec_fn(MetricsKey) -> Option<Seq<char>> {
    |k: MetricsKey|
        if m.contains_key(k) {
            Some(m[k].export_block(k))
        } else {
            None
        }
}

/// What turns a metric into its log line, if it has a histogram.
pub open spec fn line_of(m: Registry) -> spec_fn(MetricsKey) -> Option<Seq<char>> {
    |k: MetricsKey|
        if m.contains_key(k) {
            Some(m[k].log_line(k))
        } else {
            None
        }
}

/// The log lines of the metrics that come before place `n` of the canonical
/// order.
pub open spec fn lines_before(m: Registry, n: int) -> Seq<Seq<char>> {
    canonical_order().take(n).filter_map(line_of(m))
}

/// `init` on a metric without a histogram, with valid bounds, gives it a
/// fresh histogram: a bucket for each bound, all counts zero.
pub proof fn init_gives_fresh(m: Registry, key: MetricsKey, bounds: Seq<Binary64>)
    requires
        !m.contains_key(key),
        valid_bounds(bounds),
    ensures
        initialized(m, key, bounds).contains_key(key),
        initialized(m, key, bounds)[key] == HistogramView::fresh(bounds),
        buckets_of(initialized(m, key, bounds), key).len() == bounds.len(),
        forall|i: int|
            0 <= i < bounds.len() ==> #[trigger] buckets_of(initialized(m, key, bounds), key)[i]
                == (bounds[i], 0nat),
        count_of(initialized(m, key, bounds), key) == 0,
{
}

/// `init` with bounds that are empty or not strictly increasing changes
/// nothing, however often it is repeated: a metric without a histogram
/// stays without one.
pub proof fn init_rejects_invalid_bounds(m: Registry, key: MetricsKey, bounds: Seq<Binary64>)
    requires
        !valid_bounds(bounds),
    ensures
        initialized(m, key, bounds) == m,
        initialized(initialized(m, key, bounds), key, bounds) == m,
        !m.contains_key(key) ==> !initialized(m, key, bounds).contains_key(key),
{
}

/// The first `init` of a metric wins: once a metric has a histogram, `init`
/// with other bounds changes nothing.
pub proof fn init_keeps_first(
    m: Registry,
    key: MetricsKey,
    first: Seq<Binary64>,
    second: Seq<Binary64>,
)
    ensures
        m.contains_key(key) ==> initialized(m, key, second) == m,
        valid_bounds(first) ==> initialized(initialized(m, key, first), key, second)
            == initialized(m, key, first),
{
}

/// The order in which two metrics are initialized does not matter.
pub proof fn init_order_is_irrelevant(
    m: Registry,
    a: MetricsKey,
    bounds_a: Seq<Binary64>,
    b: MetricsKey,
    bounds_b: Seq<Binary64>,
)
    requires
        a != b,
    ensures
        initialized(initialized(m, a, bounds_a), b, bounds_b) == initialized(
            initialized(m, b, bounds_b),
            a,
            bounds_a,
        ),
        log_lines(initialized(initialized(m, a, bounds_a), b, bounds_b)) == log_lines(
            initialized(initialized(m, b, bounds_b), a, bounds_a),
        ),
{
    assert(initialized(initialized(m, a, bounds_a), b, bounds_b) =~= initialized(
        initialized(m, b, bounds_b),
        a,
        bounds_a,
    ));
}

/// Recording for a metric changes that metric's histogram as recording a
/// sample does, and no other; for a metric without a histogram it changes
/// nothing.
pub proof fn record_touches_one(m: Registry, key: MetricsKey, sample: Binary64)
    ensures
        !m.contains_key(key) ==> recorded(m, key, sample) == m,
        m.contains_key(key) ==> recorded(m, key, sample)[key] == m[key].record(sample),
        forall|k: MetricsKey|
            k != key ==> (#[trigger] recorded(m, key, sample).contains_key(k) == m.contains_key(k)
                && recorded(m, key, sample)[k] == m[k]),
        m.contains_key(key) ==> count_of(recorded(m, key, sample), key) == count_of(m, key) + 1,
        recorded_many(m, key, seq![sample]) == recorded(m, key, sample),
{
    if m.contains_key(key) {
        let one = seq![sample];
        assert(one.drop_last() =~= Seq::<Binary64>::empty());
        assert(m[key].record_many(one.drop_last()) == m[key]);
        assert(m[key].record_many(one) == m[key].record(sample));
    }
}

/// A metric that was never initialized has count zero, sum zero and no
/// buckets.
pub proof fn uninitialized_defaults(m: Registry, key: MetricsKey)
    requires
        !m.contains_key(key),
    ensures
        count_of(m, key) == 0,
        sum_of(m, key).bits == 0,
        buckets_of(m, key).len() == 0,
{
}

/// The lines before a place are the first of the lines before any later
/// place.
pub proof fn lines_before_is_prefix(m: Registry, n: int, later: int)
    requires
        0 <= n <= later <= KEY_COUNT,
    ensures
        lines_before(m, n).len() <= lines_before(m, later).len(),
        lines_before(m, later).take(lines_before(m, n).len() as int) == lines_before(m, n),
    decreases later - n,
{
    if n < later {
        lines_before_is_prefix(m, n, later - 1);
        canonical_order().lemma_filter_map_take_succ(line_of(m), later - 1);
        assert(lines_before(m, later).take(lines_before(m, n).len() as int) =~= lines_before(
            m,
            n,
        ));
    } else {
        assert(lines_before(m, later).take(lines_before(m, n).len() as int) =~= lines_before(
            m,
            n,
        ));
    }
}

/// The log lines follow the canonical order, whatever the order in which
/// the metrics were initialized. The line of a metric that has a histogram
/// stands after the lines of the metrics before it, which are as many as
/// those metrics that have one; a metric without a histogram adds no line.
pub proof fn log_lines_follow_canonical_order(m: Registry, key: MetricsKey)
    ensures
        log_lines(m) == lines_before(m, KEY_COUNT as int),
        lines_before(m, 0).len() == 0,
        lines_before(m, key.ordinal() as int).len() <= log_lines(m).len(),
        m.contains_key(key) ==> {
            &&& lines_before(m, key.ordinal() + 1).len() == lines_before(
                m,
                key.ordinal() as int,
            ).len() + 1
            &&& lines_before(m, key.ordinal() as int).len() < log_lines(m).len()
            &&& log_lines(m)[lines_before(m, key.ordinal() as int).len() as int] == m[key].log_line(
                key,
            )
        },
        !m.contains_key(key) ==> lines_before(m, key.ordinal() + 1) == lines_before(
            m,
            key.ordinal() as int,
        ),
{
    let at = key.ordinal() as int;
    assert(canonical_order().take(KEY_COUNT as int) =~= canonical_order());
    assert(canonical_order().take(0) =~= Seq::<MetricsKey>::empty());
    assert(canonical_order()[at] == key);
    canonical_order().lemma_filter_map_take_succ(line_of(m), at);
    lines_before_is_prefix(m, at, at + 1);
    lines_before_is_prefix(m, at + 1, KEY_COUNT as int);
    lines_before_is_prefix(m, at, KEY_COUNT as int);
    if m.contains_key(key) {
        let upto = lines_before(m, at + 1);
        let here = lines_before(m, at).len() as int;
        assert(upto[here] == m[key].log_line(key));
        assert(log_lines(m).take(upto.len() as int)[here] == upto[here]);
    } else {
        assert(lines_before(m, at + 1) =~= lines_before(m, at));
    }
}

/// A histogram for each metric that was initialized.
#[derive(Debug)]
pub struct HistogramManager {
    pub(crate) date_map: HashMap<u64, HistogramValue>,
}

impl View for HistogramManager {
    type V = Registry;

    closed spec fn view(&self) -> Registry {
        Map::new(
            |k: MetricsKey| self.date_map@.contains_key(k.ordinal()),
            |k: MetricsKey| self.date_map@[k.ordinal()]@,
        )
    }
}

impl HistogramManager {
    /// Whether the registry is well formed: so is each of its histograms.
    /// Every registry that this library hands out is.
    pub closed spec fn wf(&self) -> bool {
        forall|o: u64| #[trigger]
            self.date_map@.contains_key(o) ==> o < KEY_COUNT && self.date_map@[o].wf()
    }

    /// Each histogram of a well-formed registry is well formed.
    pub proof fn wf_entries(&self)
        requires
            self.wf(),
        ensures
            forall|k: MetricsKey| #[trigger] self@.contains_key(k) ==> self@[k].wf(),
    {
    }

    /// Makes a registry without any histogram.
    pub fn new() -> (r: HistogramManager)
        ensures
            r@ == Map::<MetricsKey, HistogramView>::empty(),
            r.wf(),
    {
        let r = HistogramManager { date_map: HashMap::new() };
        assert(r@ =~= Map::<MetricsKey, HistogramView>::empty());
        r
    }

    /// Gives `key` a histogram over `bounds`, unless it has one already or
    /// the bounds are empty or not strictly increasing: then nothing changes.
    pub fn init(&mut self, key: MetricsKey, bounds: &[Binary64])
        requires
            old(self).wf(),
        ensures
            final(self)@ == initialized(old(self)@, key, bounds@),
            final(self).wf(),
    {
        proof {
            ordinal_is_injective();
        }
        let k: u64 = key.index();
        if let Entry::Vacant(e) = self.date_map.entry(k) {
            if let Some(item) = HistogramValue::new(bounds) {
                e.insert(item);
            }
        }
        assert(self@ =~= initialized(old(self)@, key, bounds@));
    }

    /// The histogram of `key`, if it has one.
    pub fn get_value(&self, key: &MetricsKey) -> (r: Option<&HistogramValue>)
        requires
            self.wf(),
        ensures
            r is Some <==> self@.contains_key(*key),
            r is Some ==> r->0@ == self@[*key] && r->0.wf(),
    {
        let k: u64 = key.index();
        self.date_map.get(&k)
    }

    /// Records a sample for `key`. Nothing changes where the metric has no
    /// histogram.
    pub fn record(&mut self, key: &MetricsKey, sample: Binary64)
        requires
            old(self).wf(),
            count_of(old(self)@, *key) < u64::MAX,
        ensures
            final(self)@ == recorded(old(self)@, *key, sample),
            final(self).wf(),
    {
        proof {
            ordinal_is_injective();
        }
        let k: u64 = key.index();
        if let Entry::Occupied(mut e) = self.date_map.entry(k) {
            e.get_mut().record(sample);
        }
        assert(self@ =~= recorded(old(self)@, *key, sample));
    }

    /// Records samples for `key`, one by one. Nothing changes where the
    /// metric has no histogram.
    pub fn record_many(&mut self, key: &MetricsKey, samples: &[Binary64])
        requires
            old(self).wf(),
            count_of(old(self)@, *key) + samples@.len() <= u64::MAX,
        ensures
            final(self)@ == recorded_many(old(self)@, *key, samples@),
            final(self).wf(),
    {
        proof {
            ordinal_is_injective();
        }
        let k: u64 = key.index();
        if let Entry::Occupied(mut e) = self.date_map.entry(k) {
            e.get_mut().record_many(samples);
        }
        assert(self@ =~= recorded_many(old(self)@, *key, samples@));
    }

    /// The sum of the samples of `key`, zero where it has no histogram.
    pub fn sum(&self, key: &MetricsKey) -> (r: Binary64)
        requires
            self.wf(),
        ensures
            r == sum_of(self@, *key),
    {
        if let Some(item) = self.get_value(key) {
            item.sum()
        } else {
            Binary64::zero()
        }
    }

    /// The number of samples of `key`, zero where it has no histogram.
    pub fn count(&self, key: &MetricsKey) -> (r: u64)
        requires
            self.wf(),
        ensures
            r == count_of(self@, *key),
    {
        if let Some(item) = self.get_value(key) {
            item.count()
        } else {
            0u64
        }
    }

    /// Each bound of `key` with its cumulative count, none where it has no
    /// histogram.
    pub fn buckets(&self, key: &MetricsKey) -> (r: Vec<(Binary64, u64)>)
        requires
            self.wf(),
        ensures
            bucket_pairs(r@) == buckets_of(self@, *key),
    {
        if let Some(item) = self.get_value(key) {
            item.buckets()
        } else {
            let r: Vec<(Binary64, u64)> = Vec::new();
            assert(bucket_pairs(r@) =~= buckets_of(self@, *key));
            r
        }
    }

    /// The log lines of the registry: one for each metric that has a
    /// histogram, in canonical order.
    pub fn print_metrics(&self) -> (r: Vec<String>)
        requires
            self.wf(),
        ensures
            texts(r@) == log_lines(self@),
    {
        let keys = order_all_keys();
        let ghost line = line_of(self@);
        let mut r: Vec<String> = Vec::new();
        let mut i: usize = 0;
        while i < keys.len()
            invariant
                i <= keys@.len(),
                keys@ == canonical_order(),
                self.wf(),
                line == line_of(self@),
                texts(r@) == keys@.take(i as int).filter_map(line),
            decreases keys@.len() - i,
        {
            proof {
                keys@.lemma_filter_map_take_succ(line, i as int);
            }
            if let Some(val) = self.get_value(&keys[i]) {
                r.push(val.log_line(&keys[i]));
            }
            assert(texts(r@) =~= keys@.take(i + 1).filter_map(line));
            i += 1;
        }
        assert(keys@.take(i as int) =~= keys@);
        r
    }

    /// The exposition blocks of the registry: one for each metric that has a
    /// histogram, in canonical order.
    pub fn export_texts(&self) -> (r: Vec<String>)
        requires
            self.wf(),
        ensures
            texts(r@) == export_blocks(self@),
    {
        let keys = order_all_keys();
        let ghost block = block_of(self@);
        let mut r: Vec<String> = Vec::new();
        let mut i: usize = 0;
        while i < keys.len()
            invariant
                i <= keys@.len(),
                keys@ == canonical_order(),
                self.wf(),
                block == block_of(self@),
                texts(r@) == keys@.take(i as int).filter_map(block),
            decreases keys@.len() - i,
        {
            proof {
                keys@.lemma_filter_map_take_succ(block, i as int);
            }
            if let Some(val) = self.get_value(&keys[i]) {
                r.push(val.export_block(&keys[i]));
            }
            assert(texts(r@) =~= keys@.take(i + 1).filter_map(block));
            i += 1;
        }
        assert(keys@.take(i as int) =~= keys@);
        r
    }

    /// Appends the exposition blocks of the registry to `bytes_mut`, in
    /// canonical order. It fails at the first block that the buffer cannot
    /// take; the blocks before it stay written. The registry is unchanged.
    pub fn export(&mut self, bytes_mut: &mut BytesMut) -> (r: Result<(), ExportError>)
        requires
            old(self).wf(),
        ensures
            sink_bytes(*final(bytes_mut)) == written(
                sink_bytes(*old(bytes_mut)),
                export_blocks(old(self)@),
            ),
            r is Ok <==> all_fit(sink_bytes(*old(bytes_mut)), export_blocks(old(self)@)),
            final(self)@ == old(self)@,
            final(self).wf(),
    {
        let blocks = self.export_texts();
        write_blocks(bytes_mut, &blocks)
    }
}

impl Default for HistogramManager {
    fn default() -> (r: HistogramManager)
        ensures
            r@ == Map::<MetricsKey, HistogramView>::empty(),
            r.wf(),
    {
        HistogramManager::new()
    }
}

} // verus!
