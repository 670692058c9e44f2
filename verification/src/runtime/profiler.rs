//! Profiling records: effect latency histograms with a p99 estimate, GC
//! pause events and cache access counts.

use vstd::prelude::*;
use crate::outside::now_unix_millis;
use crate::text::{str_eq, string_of};

verus! {

/// A histogram bucket: latencies in `[min_us, max_us)` and how many fell in it.
#[derive(Clone, Copy, Debug)]
pub struct LatencyBucket {
    pub min_us: u32,
    pub max_us: u32,
    pub count: u64,
}

/// Latency statistics of one effect type.
#[derive(Debug)]
pub struct EffectMetrics {
    pub effect_type: String,
    pub total_calls: u64,
    pub total_latency_us: u64,
    pub min_latency_us: u32,
    pub max_latency_us: u32,
    pub latency_distribution: Vec<LatencyBucket>,
}

/// The standard buckets: [0,10), [10,100), [100,1000), [1000,10000),
/// [10000, u32::MAX), all empty.
pub open spec fn standard_buckets() -> Seq<LatencyBucket> {
    seq![
        LatencyBucket { min_us: 0, max_us: 10, count: 0 },
        LatencyBucket { min_us: 10, max_us: 100, count: 0 },
        LatencyBucket { min_us: 100, max_us: 1000, count: 0 },
        LatencyBucket { min_us: 1000, max_us: 10000, count: 0 },
        LatencyBucket { min_us: 10000, max_us: u32::MAX, count: 0 },
    ]
}

/// Whether bucket `b` takes latency `l`.
pub open spec fn takes(b: LatencyBucket, l: u32) -> bool {
    b.min_us <= l && l < b.max_us
}

/// The position of the first bucket that takes `l`, if any.
pub open spec fn bucket_for(bs: Seq<LatencyBucket>, l: u32) -> Option<int>
    decreases bs.len(),
{
    if bs.len() == 0 {
        None
    } else if takes(bs[0], l) {
        Some(0)
    } else {
        match bucket_for(bs.drop_first(), l) {
            Some(i) => Some(i + 1),
            None => None,
        }
    }
}

/// The total count of the first `n` buckets.
pub open spec fn count_prefix(bs: Seq<LatencyBucket>, n: int) -> nat
    decreases n,
{
    if n <= 0 {
        0
    } else {
        count_prefix(bs, n - 1) + bs[n - 1].count as nat
    }
}

/// The upper bound of the first bucket from `i` on at which the cumulative
/// count reaches `target`, or `fallback` when none does.
pub open spec fn first_reaching(bs: Seq<LatencyBucket>, target: int, i: int, fallback: u32) -> u32
    decreases bs.len() - i,
{
    if i < 0 || i >= bs.len() {
        fallback
    } else if count_prefix(bs, i + 1) >= target {
        bs[i].max_us
    } else {
        first_reaching(bs, target, i + 1, fallback)
    }
}

/// The p99 estimate: the upper bound of the first bucket at which the
/// cumulative count reaches 99% of the calls (rounded down), or the largest
/// latency seen when none does.
pub open spec fn p99_of(bs: Seq<LatencyBucket>, total_calls: u64, max_latency: u32) -> u32 {
    first_reaching(bs, (total_calls * 99) / 100, 0, max_latency)
}

/// Counts grow along the buckets.
pub proof fn lemma_count_prefix_mono(bs: Seq<LatencyBucket>, a: int, b: int)
    requires
        0 <= a <= b <= bs.len(),
    ensures
        count_prefix(bs, a) <= count_prefix(bs, b),
    decreases b - a,
{
    if a < b {
        lemma_count_prefix_mono(bs, a, b - 1);
    }
}

impl EffectMetrics {
    /// Empty metrics for an effect type, with the standard buckets.
    pub fn new(effect_type: &str) -> (m: Self)
        ensures
            m.effect_type@ == effect_type@,
            m.total_calls == 0,
            m.total_latency_us == 0,
            m.min_latency_us == u32::MAX,
            m.max_latency_us == 0,
            m.latency_distribution@ == standard_buckets(),
    {
        let mut buckets: Vec<LatencyBucket> = Vec::new();
        buckets.push(LatencyBucket { min_us: 0, max_us: 10, count: 0 });
        buckets.push(LatencyBucket { min_us: 10, max_us: 100, count: 0 });
        buckets.push(LatencyBucket { min_us: 100, max_us: 1000, count: 0 });
        buckets.push(LatencyBucket { min_us: 1000, max_us: 10000, count: 0 });
        buckets.push(LatencyBucket { min_us: 10000, max_us: u32::MAX, count: 0 });
        assert(buckets@ =~= standard_buckets());
        EffectMetrics {
            effect_type: string_of(effect_type),
            total_calls: 0,
            total_latency_us: 0,
            min_latency_us: u32::MAX,
            max_latency_us: 0,
            latency_distribution: buckets,
        }
    }

    /// Adds one call with latency `latency_us`: counts it, tracks the
    /// extremes, and counts it in the first bucket that takes it.
    pub fn record_latency(&mut self, latency_us: u32)
        requires
            old(self).total_calls < u64::MAX,
            old(self).total_latency_us + latency_us <= u64::MAX,
            forall|i: int| 0 <= i < old(self).latency_distribution@.len() ==> #[trigger] old(self).latency_distribution@[i].count < u64::MAX,
        ensures
            final(self).effect_type == old(self).effect_type,
            final(self).total_calls == old(self).total_calls + 1,
            final(self).total_latency_us == old(self).total_latency_us + latency_us,
            final(self).min_latency_us == (if latency_us < old(self).min_latency_us { latency_us } else { old(self).min_latency_us }),
            final(self).max_latency_us == (if latency_us > old(self).max_latency_us { latency_us } else { old(self).max_latency_us }),
            final(self).latency_distribution@ == (match bucket_for(old(self).latency_distribution@, latency_us) {
                Some(i) => old(self).latency_distribution@.update(i, LatencyBucket {
                    count: (old(self).latency_distribution@[i].count + 1) as u64,
                    ..old(self).latency_distribution@[i]
                }),
                None => old(self).latency_distribution@,
            }),
    {
        self.total_calls = self.total_calls + 1;
        self.total_latency_us = self.total_latency_us + latency_us as u64;
        if latency_us < self.min_latency_us {
            self.min_latency_us = latency_us;
        }
        if latency_us > self.max_latency_us {
            self.max_latency_us = latency_us;
        }
        let ghost bs = self.latency_distribution@;
        let mut i: usize = 0;
        let mut found = false;
        assert(bs.skip(0) =~= bs);
        while i < self.latency_distribution.len() && !found
            invariant
                bs == self.latency_distribution@,
                i <= bs.len(),
                bucket_for(bs, latency_us) == (match bucket_for(bs.skip(i as int), latency_us) {
                    Some(k) => Some(k + i),
                    None => None::<int>,
                }),
                found ==> i < bs.len() && takes(bs[i as int], latency_us),
            decreases bs.len() - i + if found { 0int } else { 1int },
        {
            let b = self.latency_distribution[i];
            let ghost rest = bs.skip(i as int);
            assert(rest[0] == b);
            assert(rest.drop_first() =~= bs.skip(i + 1));
            if latency_us >= b.min_us && latency_us < b.max_us {
                found = true;
            } else {
                i = i + 1;
            }
        }
        if found {
            let b = self.latency_distribution[i];
            assert(bs.skip(i as int)[0] == b);
            self.latency_distribution.set(i, LatencyBucket { count: b.count + 1, ..b });
        } else {
            assert(bs.skip(i as int) =~= Seq::<LatencyBucket>::empty());
        }
    }

    /// The p99 estimate (see `p99_of`).
    pub fn p99_latency_us(&self) -> (p: u32)
        requires
            self.total_calls * 99 <= u64::MAX,
            count_prefix(self.latency_distribution@, self.latency_distribution@.len() as int) <= u64::MAX,
        ensures
            p == p99_of(self.latency_distribution@, self.total_calls, self.max_latency_us),
    {
        let ghost bs = self.latency_distribution@;
        let target = (self.total_calls * 99) / 100;
        let mut cumulative: u64 = 0;
        let mut i: usize = 0;
        while i < self.latency_distribution.len()
            invariant
                bs == self.latency_distribution@,
                i <= bs.len(),
                cumulative == count_prefix(bs, i as int),
                count_prefix(bs, bs.len() as int) <= u64::MAX,
                target == (self.total_calls * 99) / 100,
                p99_of(bs, self.total_calls, self.max_latency_us) == first_reaching(bs, target as int, i as int, self.max_latency_us),
            decreases bs.len() - i,
        {
            proof { lemma_count_prefix_mono(bs, i + 1, bs.len() as int); }
            cumulative = cumulative + self.latency_distribution[i].count;
            if cumulative >= target {
                return self.latency_distribution[i].max_us;
            }
            i = i + 1;
        }
        self.max_latency_us
    }
}

/// A garbage collection pause.
#[derive(Clone, Copy, Debug)]
pub struct GcPauseEvent {
    pub timestamp_ms: u64,
    pub pause_duration_us: u32,
    pub freed_bytes: u64,
    pub heap_before: u64,
    pub heap_after: u64,
}

impl GcPauseEvent {
    /// A pause stamped with the current time.
    pub fn new(pause_duration_us: u32, freed_bytes: u64, heap_before: u64, heap_after: u64) -> (e: Self)
        ensures
            e.pause_duration_us == pause_duration_us,
            e.freed_bytes == freed_bytes,
            e.heap_before == heap_before,
            e.heap_after == heap_after,
    {
        GcPauseEvent { timestamp_ms: now_unix_millis(), pause_duration_us, freed_bytes, heap_before, heap_after }
    }
}

/// Access counts of a cache.
#[derive(Clone, Debug)]
pub struct CacheHitStats {
    pub cache_name: String,
    pub total_accesses: u64,
    pub cache_hits: u64,
    pub cache_misses: u64,
}

impl CacheHitStats {
    /// Zero counts for the named cache.
    pub fn new(cache_name: &str) -> (s: Self)
        ensures
            s.cache_name@ == cache_name@,
            s.total_accesses == 0 && s.cache_hits == 0 && s.cache_misses == 0,
    {
        CacheHitStats { cache_name: string_of(cache_name), total_accesses: 0, cache_hits: 0, cache_misses: 0 }
    }
}

} // verus!

verus! {

/// Task scheduling counters.
#[derive(Clone, Copy, Debug)]
pub struct SchedulingStats {
    pub total_tasks_created: u64,
    pub total_context_switches: u64,
    pub max_queue_length: usize,
    pub total_wait_time_us: u64,
}

/// What `record_latency` does to a metric: one more call, the latency
/// added to the total, the minimum and maximum updated, and the bucket
/// that takes the latency counted.
pub open spec fn latency_recorded(before: EffectMetrics, after: EffectMetrics, l: u32) -> bool {
    &&& after.effect_type@ == before.effect_type@
    &&& after.total_calls == before.total_calls + 1
    &&& after.total_latency_us == before.total_latency_us + l
    &&& after.min_latency_us == (if l < before.min_latency_us { l } else { before.min_latency_us })
    &&& after.max_latency_us == (if l > before.max_latency_us { l } else { before.max_latency_us })
    &&& after.latency_distribution@ == bucket_counted(before.latency_distribution@, l)
}

/// The buckets with the one that takes latency `l` counted once more.
pub open spec fn bucket_counted(bs: Seq<LatencyBucket>, l: u32) -> Seq<LatencyBucket> {
    match bucket_for(bs, l) {
        Some(i) => bs.update(i, LatencyBucket { count: (bs[i].count + 1) as u64, ..bs[i] }),
        None => bs,
    }
}

/// A metric for `name` after its first latency `l`.
pub open spec fn first_latency(m: EffectMetrics, name: Seq<char>, l: u32) -> bool {
    &&& m.effect_type@ == name
    &&& m.total_calls == 1
    &&& m.total_latency_us == l
    &&& m.min_latency_us == l
    &&& m.max_latency_us == l
    &&& m.latency_distribution@ == bucket_counted(standard_buckets(), l)
}

/// A metric whose counters can take one more latency `l`.
pub open spec fn can_record(m: EffectMetrics, l: u32) -> bool {
    &&& m.total_calls < u64::MAX
    &&& m.total_latency_us + l <= u64::MAX
    &&& forall|i: int| 0 <= i < m.latency_distribution@.len() ==> #[trigger] m.latency_distribution@[i].count < u64::MAX
}

/// The index of the metric for `name`, or -1.
pub open spec fn metric_index(ms: Seq<EffectMetrics>, name: Seq<char>) -> int
    decreases ms.len(),
{
    if ms.len() == 0 {
        -1
    } else if ms.last().effect_type@ == name {
        ms.len() - 1
    } else {
        metric_index(ms.drop_last(), name)
    }
}

/// The index of the statistics for cache `name`, or -1.
pub open spec fn cache_index(cs: Seq<CacheHitStats>, name: Seq<char>) -> int
    decreases cs.len(),
{
    if cs.len() == 0 {
        -1
    } else if cs.last().cache_name@ == name {
        cs.len() - 1
    } else {
        cache_index(cs.drop_last(), name)
    }
}

/// What one access does to a cache's statistics.
pub open spec fn access_counted(before: CacheHitStats, after: CacheHitStats, hit: bool) -> bool {
    &&& after.cache_name@ == before.cache_name@
    &&& after.total_accesses == before.total_accesses + 1
    &&& after.cache_hits == before.cache_hits + (if hit { 1int } else { 0int })
    &&& after.cache_misses == before.cache_misses + (if hit { 0int } else { 1int })
}

/// Statistics whose counters can take one more access.
pub open spec fn can_count(c: CacheHitStats) -> bool {
    c.total_accesses < u64::MAX && c.cache_hits < u64::MAX && c.cache_misses < u64::MAX
}

/// The sum of the pause durations.
pub open spec fn pause_total(ps: Seq<GcPauseEvent>) -> int
    decreases ps.len(),
{
    if ps.len() == 0 {
        0
    } else {
        pause_total(ps.drop_last()) + ps.last().pause_duration_us
    }
}

/// The sum of the bytes freed.
pub open spec fn freed_total(ps: Seq<GcPauseEvent>) -> int
    decreases ps.len(),
{
    if ps.len() == 0 {
        0
    } else {
        freed_total(ps.drop_last()) + ps.last().freed_bytes
    }
}

proof fn lemma_metric_index(ms: Seq<EffectMetrics>, name: Seq<char>)
    ensures
        -1 <= metric_index(ms, name) < ms.len(),
        metric_index(ms, name) >= 0 ==> ms[metric_index(ms, name)].effect_type@ == name,
        metric_index(ms, name) == -1 ==> forall|i: int| 0 <= i < ms.len() ==> ms[i].effect_type@ != name,
        forall|i: int| metric_index(ms, name) < i < ms.len() ==> ms[i].effect_type@ != name,
    decreases ms.len(),
{
    if ms.len() > 0 && ms.last().effect_type@ != name {
        lemma_metric_index(ms.drop_last(), name);
        assert forall|i: int| 0 <= i < ms.len() - 1 implies ms.drop_last()[i] == ms[i] by {}
    }
}

proof fn lemma_metric_at(ms: Seq<EffectMetrics>, name: Seq<char>, i: int)
    requires
        0 <= i < ms.len(),
        ms[i].effect_type@ == name,
        forall|k: int| i < k < ms.len() ==> ms[k].effect_type@ != name,
    ensures
        metric_index(ms, name) == i,
    decreases ms.len(),
{
    if i != ms.len() - 1 {
        let p = ms.drop_last();
        assert forall|k: int| i < k < p.len() implies p[k].effect_type@ != name by {
            assert(p[k] == ms[k]);
        }
        lemma_metric_at(p, name, i);
    }
}

proof fn lemma_cache_index(cs: Seq<CacheHitStats>, name: Seq<char>)
    ensures
        -1 <= cache_index(cs, name) < cs.len(),
        cache_index(cs, name) >= 0 ==> cs[cache_index(cs, name)].cache_name@ == name,
        cache_index(cs, name) == -1 ==> forall|i: int| 0 <= i < cs.len() ==> cs[i].cache_name@ != name,
    decreases cs.len(),
{
    if cs.len() > 0 && cs.last().cache_name@ != name {
        lemma_cache_index(cs.drop_last(), name);
        assert forall|i: int| 0 <= i < cs.len() - 1 implies cs.drop_last()[i] == cs[i] by {}
    }
}

proof fn lemma_cache_at(cs: Seq<CacheHitStats>, name: Seq<char>, i: int)
    requires
        0 <= i < cs.len(),
        cs[i].cache_name@ == name,
        forall|k: int| i < k < cs.len() ==> cs[k].cache_name@ != name,
    ensures
        cache_index(cs, name) == i,
    decreases cs.len(),
{
    if i != cs.len() - 1 {
        let p = cs.drop_last();
        assert forall|k: int| i < k < p.len() implies p[k].cache_name@ != name by {
            assert(p[k] == cs[k]);
        }
        lemma_cache_at(p, name, i);
    }
}

/// Records effect latencies, scheduling counters, collector pauses and
/// cache accesses while recording is on.
pub struct Profiler {
    effect_metrics: Vec<EffectMetrics>,
    scheduling_stats: SchedulingStats,
    gc_pauses: Vec<GcPauseEvent>,
    cache_stats: Vec<CacheHitStats>,
    recording: bool,
}

impl Profiler {
    /// The metrics per effect type, in order of first record.
    pub closed spec fn metrics(&self) -> Seq<EffectMetrics> {
        self.effect_metrics@
    }

    /// The scheduling counters.
    pub closed spec fn scheduling(&self) -> SchedulingStats {
        self.scheduling_stats
    }

    /// The collector pauses, oldest first.
    pub closed spec fn pauses(&self) -> Seq<GcPauseEvent> {
        self.gc_pauses@
    }

    /// The statistics per cache, in order of first access.
    pub closed spec fn caches(&self) -> Seq<CacheHitStats> {
        self.cache_stats@
    }

    /// Whether events are being recorded.
    pub closed spec fn recording(&self) -> bool {
        self.recording
    }

    /// A recording profiler with nothing recorded.
    pub fn new() -> (p: Self)
        ensures
            p.metrics().len() == 0,
            p.pauses().len() == 0,
            p.caches().len() == 0,
            p.scheduling() == (SchedulingStats {
                total_tasks_created: 0,
                total_context_switches: 0,
                max_queue_length: 0,
                total_wait_time_us: 0,
            }),
            p.recording(),
    {
        Profiler {
            effect_metrics: Vec::new(),
            scheduling_stats: SchedulingStats {
                total_tasks_created: 0,
                total_context_switches: 0,
                max_queue_length: 0,
                total_wait_time_us: 0,
            },
            gc_pauses: Vec::new(),
            cache_stats: Vec::new(),
            recording: true,
        }
    }

    fn find_metric(&self, name: &str) -> (r: Option<usize>)
        ensures
            match r {
                Some(i) => metric_index(self.metrics(), name@) == i as int && i < self.metrics().len(),
                None => metric_index(self.metrics(), name@) == -1,
            },
    {
        let ghost ms = self.metrics();
        proof {
            lemma_metric_index(ms, name@);
        }
        let mut i = self.effect_metrics.len();
        while i > 0
            invariant
                i <= self.effect_metrics.len(),
                ms == self.metrics(),
                forall|k: int| i <= k < ms.len() ==> ms[k].effect_type@ != name@,
            decreases i,
        {
            if str_eq(self.effect_metrics[i - 1].effect_type.as_str(), name) {
                proof {
                    lemma_metric_at(ms, name@, (i - 1) as int);
                }
                return Some(i - 1);
            }
            i = i - 1;
        }
        None
    }

    fn find_cache(&self, name: &str) -> (r: Option<usize>)
        ensures
            match r {
                Some(i) => cache_index(self.caches(), name@) == i as int && i < self.caches().len(),
                None => cache_index(self.caches(), name@) == -1,
            },
    {
        let ghost cs = self.caches();
        proof {
            lemma_cache_index(cs, name@);
        }
        let mut i = self.cache_stats.len();
        while i > 0
            invariant
                i <= self.cache_stats.len(),
                cs == self.caches(),
                forall|k: int| i <= k < cs.len() ==> cs[k].cache_name@ != name@,
            decreases i,
        {
            if str_eq(self.cache_stats[i - 1].cache_name.as_str(), name) {
                proof {
                    lemma_cache_at(cs, name@, (i - 1) as int);
                }
                return Some(i - 1);
            }
            i = i - 1;
        }
        None
    }

    /// Records one latency of an effect type, creating its metric on first
    /// use. Nothing happens while recording is off.
    pub fn record_effect_latency(&mut self, effect_type: &str, latency_us: u32)
        requires
            forall|i: int| 0 <= i < old(self).metrics().len() ==> can_record(#[trigger] old(self).metrics()[i], latency_us),
        ensures
            final(self).scheduling() == old(self).scheduling(),
            final(self).pauses() == old(self).pauses(),
            final(self).caches() == old(self).caches(),
            final(self).recording() == old(self).recording(),
            !old(self).recording() ==> final(self).metrics() == old(self).metrics(),
            old(self).recording() ==> ({
                let i = metric_index(old(self).metrics(), effect_type@);
                if i >= 0 {
                    final(self).metrics().len() == old(self).metrics().len()
                        && (forall|k: int| 0 <= k < old(self).metrics().len() && k != i
                            ==> #[trigger] final(self).metrics()[k] == old(self).metrics()[k])
                        && latency_recorded(old(self).metrics()[i], final(self).metrics()[i], latency_us)
                } else {
                    final(self).metrics().len() == old(self).metrics().len() + 1
                        && final(self).metrics().drop_last() == old(self).metrics()
                        && first_latency(final(self).metrics().last(), effect_type@, latency_us)
                }
            }),
    {
        if !self.recording {
            return;
        }
        match self.find_metric(effect_type) {
            Some(i) => {
                let mut m = self.effect_metrics.remove(i);
                assert(can_record(m, latency_us));
                m.record_latency(latency_us);
                self.effect_metrics.insert(i, m);
            },
            None => {
                let mut m = EffectMetrics::new(effect_type);
                m.record_latency(latency_us);
                self.effect_metrics.push(m);
                assert(self.effect_metrics@.drop_last() =~= old(self).effect_metrics@);
            },
        }
    }

    /// Counts a context switch and its wait. Nothing happens while
    /// recording is off.
    pub fn record_context_switch(&mut self, wait_time_us: u32)
        requires
            old(self).scheduling().total_context_switches < u64::MAX,
            old(self).scheduling().total_wait_time_us + wait_time_us <= u64::MAX,
        ensures
            final(self).metrics() == old(self).metrics(),
            final(self).pauses() == old(self).pauses(),
            final(self).caches() == old(self).caches(),
            final(self).recording() == old(self).recording(),
            final(self).scheduling() == (if old(self).recording() {
                SchedulingStats {
                    total_context_switches: (old(self).scheduling().total_context_switches + 1) as u64,
                    total_wait_time_us: (old(self).scheduling().total_wait_time_us + wait_time_us) as u64,
                    ..old(self).scheduling()
                }
            } else {
                old(self).scheduling()
            }),
    {
        if !self.recording {
            return;
        }
        self.scheduling_stats.total_context_switches = self.scheduling_stats.total_context_switches + 1;
        self.scheduling_stats.total_wait_time_us = self.scheduling_stats.total_wait_time_us + wait_time_us as u64;
    }

    /// Counts a task creation. Nothing happens while recording is off.
    pub fn record_task_creation(&mut self)
        requires
            old(self).scheduling().total_tasks_created < u64::MAX,
        ensures
            final(self).metrics() == old(self).metrics(),
            final(self).pauses() == old(self).pauses(),
            final(self).caches() == old(self).caches(),
            final(self).recording() == old(self).recording(),
            final(self).scheduling() == (if old(self).recording() {
                SchedulingStats {
                    total_tasks_created: (old(self).scheduling().total_tasks_created + 1) as u64,
                    ..old(self).scheduling()
                }
            } else {
                old(self).scheduling()
            }),
    {
        if !self.recording {
            return;
        }
        self.scheduling_stats.total_tasks_created = self.scheduling_stats.total_tasks_created + 1;
    }

    /// Keeps the longest queue length seen. Nothing happens while recording
    /// is off.
    pub fn update_queue_length(&mut self, length: usize)
        ensures
            final(self).metrics() == old(self).metrics(),
            final(self).pauses() == old(self).pauses(),
            final(self).caches() == old(self).caches(),
            final(self).recording() == old(self).recording(),
            final(self).scheduling() == (if old(self).recording() {
                SchedulingStats {
                    max_queue_length: if length > old(self).scheduling().max_queue_length { length } else {
                        old(self).scheduling().max_queue_length
                    },
                    ..old(self).scheduling()
                }
            } else {
                old(self).scheduling()
            }),
    {
        if !self.recording {
            return;
        }
        if length > self.scheduling_stats.max_queue_length {
            self.scheduling_stats.max_queue_length = length;
        }
    }

    /// Records a collector pause, stamped with the current time. Nothing
    /// happens while recording is off.
    pub fn record_gc_pause(&mut self, pause_duration_us: u32, freed_bytes: u64, heap_before: u64, heap_after: u64)
        ensures
            final(self).metrics() == old(self).metrics(),
            final(self).scheduling() == old(self).scheduling(),
            final(self).caches() == old(self).caches(),
            final(self).recording() == old(self).recording(),
            !old(self).recording() ==> final(self).pauses() == old(self).pauses(),
            old(self).recording() ==> final(self).pauses().len() == old(self).pauses().len() + 1
                && final(self).pauses().drop_last() == old(self).pauses()
                && final(self).pauses().last().pause_duration_us == pause_duration_us
                && final(self).pauses().last().freed_bytes == freed_bytes
                && final(self).pauses().last().heap_before == heap_before
                && final(self).pauses().last().heap_after == heap_after,
    {
        if !self.recording {
            return;
        }
        let event = GcPauseEvent::new(pause_duration_us, freed_bytes, heap_before, heap_after);
        self.gc_pauses.push(event);
        assert(self.gc_pauses@.drop_last() =~= old(self).gc_pauses@);
    }

    /// Counts an access to a cache, as a hit or a miss, creating its
    /// statistics on first use. Nothing happens while recording is off.
    pub fn record_cache_access(&mut self, cache_name: &str, hit: bool)
        requires
            forall|i: int| 0 <= i < old(self).caches().len() ==> can_count(#[trigger] old(self).caches()[i]),
        ensures
            final(self).metrics() == old(self).metrics(),
            final(self).scheduling() == old(self).scheduling(),
            final(self).pauses() == old(self).pauses(),
            final(self).recording() == old(self).recording(),
            !old(self).recording() ==> final(self).caches() == old(self).caches(),
            old(self).recording() ==> ({
                let i = cache_index(old(self).caches(), cache_name@);
                if i >= 0 {
                    final(self).caches().len() == old(self).caches().len()
                        && (forall|k: int| 0 <= k < old(self).caches().len() && k != i
                            ==> #[trigger] final(self).caches()[k] == old(self).caches()[k])
                        && access_counted(old(self).caches()[i], final(self).caches()[i], hit)
                } else {
                    final(self).caches().len() == old(self).caches().len() + 1
                        && final(self).caches().drop_last() == old(self).caches()
                        && final(self).caches().last().cache_name@ == cache_name@
                        && final(self).caches().last().total_accesses == 1
                        && final(self).caches().last().cache_hits == (if hit { 1u64 } else { 0u64 })
                        && final(self).caches().last().cache_misses == (if hit { 0u64 } else { 1u64 })
                }
            }),
    {
        if !self.recording {
            return;
        }
        let (i, fresh) = match self.find_cache(cache_name) {
            Some(i) => (i, false),
            None => {
                self.cache_stats.push(CacheHitStats::new(cache_name));
                (self.cache_stats.len() - 1, true)
            },
        };
        let ghost mid = self.cache_stats@;
        let mut s = self.cache_stats.remove(i);
        s.total_accesses = s.total_accesses + 1;
        if hit {
            s.cache_hits = s.cache_hits + 1;
        } else {
            s.cache_misses = s.cache_misses + 1;
        }
        self.cache_stats.insert(i, s);
        assert(self.cache_stats@ =~= mid.update(i as int, s));
        if fresh {
            assert(self.cache_stats@.drop_last() =~= old(self).cache_stats@);
        }
    }

    /// The metrics of an effect type, if any were recorded.
    pub fn get_effect_metrics(&self, effect_type: &str) -> (r: Option<&EffectMetrics>)
        ensures
            ({
                let i = metric_index(self.metrics(), effect_type@);
                if i >= 0 {
                    r is Some && *r->0 == self.metrics()[i]
                } else {
                    r is None
                }
            }),
    {
        match self.find_metric(effect_type) {
            Some(i) => Some(&self.effect_metrics[i]),
            None => None,
        }
    }

    /// The metrics of every effect type, in order of first record.
    pub fn all_effect_metrics(&self) -> (r: Vec<&EffectMetrics>)
        ensures
            r@.len() == self.metrics().len(),
            forall|i: int| 0 <= i < r@.len() ==> *#[trigger] r@[i] == self.metrics()[i],
    {
        let mut r: Vec<&EffectMetrics> = Vec::new();
        let mut i: usize = 0;
        while i < self.effect_metrics.len()
            invariant
                i <= self.effect_metrics.len(),
                r@.len() == i,
                forall|k: int| 0 <= k < i ==> *#[trigger] r@[k] == self.effect_metrics@[k],
            decreases self.effect_metrics.len() - i,
        {
            r.push(&self.effect_metrics[i]);
            i = i + 1;
        }
        r
    }

    /// The statistics of a cache, if it was accessed while recording.
    pub fn get_cache_stats(&self, cache_name: &str) -> (r: Option<&CacheHitStats>)
        ensures
            ({
                let i = cache_index(self.caches(), cache_name@);
                if i >= 0 {
                    r is Some && *r->0 == self.caches()[i]
                } else {
                    r is None
                }
            }),
    {
        match self.find_cache(cache_name) {
            Some(i) => Some(&self.cache_stats[i]),
            None => None,
        }
    }

    /// The statistics of every cache, in order of first access.
    pub fn all_cache_stats(&self) -> (r: Vec<&CacheHitStats>)
        ensures
            r@.len() == self.caches().len(),
            forall|i: int| 0 <= i < r@.len() ==> *#[trigger] r@[i] == self.caches()[i],
    {
        let mut r: Vec<&CacheHitStats> = Vec::new();
        let mut i: usize = 0;
        while i < self.cache_stats.len()
            invariant
                i <= self.cache_stats.len(),
                r@.len() == i,
                forall|k: int| 0 <= k < i ==> *#[trigger] r@[k] == self.cache_stats@[k],
            decreases self.cache_stats.len() - i,
        {
            r.push(&self.cache_stats[i]);
            i = i + 1;
        }
        r
    }

    /// The scheduling counters.
    pub fn scheduling_stats(&self) -> (s: SchedulingStats)
        ensures
            s == self.scheduling(),
    {
        self.scheduling_stats
    }

    /// The number of pauses, their total duration and the total bytes
    /// freed; `None` when a total does not fit in 64 bits.
    pub fn gc_totals(&self) -> (r: Option<(u64, u64, u64)>)
        ensures
            (pause_total(self.pauses()) <= u64::MAX && freed_total(self.pauses()) <= u64::MAX) <==> r is Some,
            match r {
                Some((n, pause, freed)) => n == self.pauses().len() && pause == pause_total(self.pauses())
                    && freed == freed_total(self.pauses()),
                None => true,
            },
    {
        let ghost ps = self.gc_pauses@;
        let mut pause: u64 = 0;
        let mut freed: u64 = 0;
        let mut i: usize = 0;
        while i < self.gc_pauses.len()
            invariant
                ps == self.gc_pauses@,
                i <= ps.len(),
                pause == pause_total(ps.take(i as int)),
                freed == freed_total(ps.take(i as int)),
            decreases ps.len() - i,
        {
            assert(ps.take(i + 1).drop_last() =~= ps.take(i as int));
            proof {
                lemma_totals_prefix(ps, i + 1);
            }
            pause = match pause.checked_add(self.gc_pauses[i].pause_duration_us as u64) {
                Some(v) => v,
                None => {
                    return None;
                },
            };
            freed = match freed.checked_add(self.gc_pauses[i].freed_bytes) {
                Some(v) => v,
                None => {
                    return None;
                },
            };
            i = i + 1;
        }
        assert(ps.take(ps.len() as int) =~= ps);
        Some((self.gc_pauses.len() as u64, pause, freed))
    }

    /// Turns recording on or off.
    pub fn set_recording(&mut self, enabled: bool)
        ensures
            final(self).recording() == enabled,
            final(self).metrics() == old(self).metrics(),
            final(self).scheduling() == old(self).scheduling(),
            final(self).pauses() == old(self).pauses(),
            final(self).caches() == old(self).caches(),
    {
        self.recording = enabled;
    }

    /// Whether events are being recorded.
    pub fn is_recording(&self) -> (b: bool)
        ensures
            b == self.recording(),
    {
        self.recording
    }

    /// The number of effect types with metrics.
    pub fn effect_type_count(&self) -> (n: usize)
        ensures
            n == self.metrics().len(),
    {
        self.effect_metrics.len()
    }

    /// The number of recorded pauses.
    pub fn gc_pause_count(&self) -> (n: usize)
        ensures
            n == self.pauses().len(),
    {
        self.gc_pauses.len()
    }

    /// The number of caches with statistics.
    pub fn cache_count(&self) -> (n: usize)
        ensures
            n == self.caches().len(),
    {
        self.cache_stats.len()
    }

    /// Forgets everything recorded; the recording switch is kept.
    pub fn clear(&mut self)
        ensures
            final(self).metrics().len() == 0,
            final(self).pauses().len() == 0,
            final(self).caches().len() == 0,
            final(self).scheduling() == (SchedulingStats {
                total_tasks_created: 0,
                total_context_switches: 0,
                max_queue_length: 0,
                total_wait_time_us: 0,
            }),
            final(self).recording() == old(self).recording(),
    {
        self.effect_metrics.clear();
        self.gc_pauses.clear();
        self.cache_stats.clear();
        self.scheduling_stats.total_tasks_created = 0;
        self.scheduling_stats.total_context_switches = 0;
        self.scheduling_stats.total_wait_time_us = 0;
        self.scheduling_stats.max_queue_length = 0;
    }
}

proof fn lemma_totals_prefix(ps: Seq<GcPauseEvent>, n: int)
    requires
        0 <= n <= ps.len(),
    ensures
        freed_total(ps.take(n)) <= freed_total(ps),
        pause_total(ps.take(n)) <= pause_total(ps),
    decreases ps.len() - n,
{
    if n < ps.len() {
        lemma_totals_prefix(ps, n + 1);
        assert(ps.take(n + 1).drop_last() =~= ps.take(n));
    } else {
        assert(ps.take(n) =~= ps);
    }
}

impl Default for Profiler {
    fn default() -> (p: Self)
        ensures
            p.metrics().len() == 0,
            p.pauses().len() == 0,
            p.caches().len() == 0,
            p.recording(),
    {
        Self::new()
    }
}

} // verus!
