//! Effect batching: consecutive effects of one kind are grouped into
//! batches (IO batched, region allocations coalesced up to a total size,
//! state writes memoised, async spawns parallelised); any other effect
//! forms a batch of its own.

use vstd::prelude::*;
use std::collections::VecDeque;
use crate::runtime::effect_handler_impl::{EffectRequest, RequestView};

verus! {

/// The optimisation applied to a batch.
#[derive(Clone, Copy, Debug, PartialEq, Eq, Structural)]
pub enum OptimizationKind {
    BatchIO,
    CoalesceRegion,
    Parallelize,
    Memoize,
    Eliminate,
}

/// The largest total size of the region allocations in one batch.
pub const REGION_COALESCE_LIMIT: u32 = 1048576;

/// Requests grouped for one dispatch.
#[derive(Debug)]
pub struct EffectBatch {
    pub kind: OptimizationKind,
    pub requests: Vec<EffectRequest>,
    pub pipeline_id: u32,
}

/// The views of a sequence of requests.
pub open spec fn request_views(s: Seq<EffectRequest>) -> Seq<RequestView> {
    s.map_values(|r: EffectRequest| r@)
}

impl EffectBatch {
    /// The kind and the request views of the batch.
    pub open spec fn shape(&self) -> (OptimizationKind, Seq<RequestView>) {
        (self.kind, request_views(self.requests@))
    }

    /// An empty batch of the given kind.
    pub fn new(kind: OptimizationKind) -> (b: Self)
        ensures
            b.kind == kind,
            b.requests@ == Seq::<EffectRequest>::empty(),
            b.pipeline_id == 0,
    {
        EffectBatch { kind, requests: Vec::new(), pipeline_id: 0 }
    }

    /// Appends a request.
    pub fn add_request(&mut self, req: EffectRequest)
        ensures
            final(self).requests@ == old(self).requests@.push(req),
            final(self).kind == old(self).kind,
            final(self).pipeline_id == old(self).pipeline_id,
    {
        self.requests.push(req);
    }

    /// The number of requests.
    pub fn size(&self) -> (n: usize)
        ensures
            n == self.requests@.len(),
    {
        self.requests.len()
    }
}

impl Clone for EffectBatch {
    fn clone(&self) -> (r: Self)
        ensures
            r.shape() == self.shape(),
            r.pipeline_id == self.pipeline_id,
    {
        let mut requests: Vec<EffectRequest> = Vec::new();
        let mut i: usize = 0;
        while i < self.requests.len()
            invariant
                i <= self.requests@.len(),
                requests@.len() == i,
                request_views(requests@) == request_views(self.requests@.take(i as int)),
            decreases self.requests@.len() - i,
        {
            let c = self.requests[i].clone();
            let ghost before = requests@;
            requests.push(c);
            proof {
                assert forall|j: int| 0 <= j < i + 1 implies #[trigger] request_views(requests@)[j]
                    == request_views(self.requests@.take(i + 1))[j] by {
                    if j < i {
                        assert(request_views(before)[j] == request_views(self.requests@.take(i as int))[j]);
                    }
                }
                assert(request_views(requests@) =~= request_views(self.requests@.take(i + 1)));
            }
            i = i + 1;
        }
        assert(self.requests@.take(self.requests@.len() as int) =~= self.requests@);
        EffectBatch { kind: self.kind, requests, pipeline_id: self.pipeline_id }
    }
}

/// Counters of the optimiser.
#[derive(Clone, Copy, Debug)]
pub struct OptimizationStats {
    pub batches_created: u64,
    pub effects_batched: u64,
    pub coalesced_regions: u64,
    pub coalesced_io: u64,
    pub total_latency_ms: u64,
    pub optimized_latency_ms: u64,
}

impl Default for OptimizationStats {
    fn default() -> (s: Self)
        ensures
            s.batches_created == 0 && s.effects_batched == 0 && s.coalesced_regions == 0,
            s.coalesced_io == 0 && s.total_latency_ms == 0 && s.optimized_latency_ms == 0,
    {
        OptimizationStats {
            batches_created: 0,
            effects_batched: 0,
            coalesced_regions: 0,
            coalesced_io: 0,
            total_latency_ms: 0,
            optimized_latency_ms: 0,
        }
    }
}

/// The optimisation a request's batch receives.
pub open spec fn batch_kind(r: RequestView) -> OptimizationKind {
    match r {
        RequestView::IO { .. } => OptimizationKind::BatchIO,
        RequestView::Region { .. } => OptimizationKind::CoalesceRegion,
        RequestView::State { .. } => OptimizationKind::Memoize,
        RequestView::Async { .. } => OptimizationKind::Parallelize,
        _ => OptimizationKind::Eliminate,
    }
}

/// The allocation size of a region request (0 for other requests).
pub open spec fn region_size(r: RequestView) -> int {
    match r {
        RequestView::Region { size, .. } => size as int,
        _ => 0,
    }
}

/// How many leading requests of `q` join a batch of kind `k` that has
/// `room` places left and holds regions of total size `total`.
pub open spec fn run_len(q: Seq<RequestView>, room: nat, k: OptimizationKind, total: int) -> nat
    decreases q.len(),
{
    if q.len() == 0 || room == 0 || batch_kind(q[0]) != k {
        0
    } else if k == OptimizationKind::CoalesceRegion && total + region_size(q[0]) > REGION_COALESCE_LIMIT {
        0
    } else {
        1 + run_len(q.drop_first(), (room - 1) as nat, k, total + region_size(q[0]))
    }
}

/// The length of the batch that starts the non-empty queue `q`.
pub open spec fn batch_len(q: Seq<RequestView>, max: nat) -> nat {
    if batch_kind(q[0]) == OptimizationKind::Eliminate {
        1
    } else {
        run_len(q, max, batch_kind(q[0]), 0)
    }
}

/// The batches the optimiser forms from `q`, in order, each as its kind
/// and its requests.
pub open spec fn plan(q: Seq<RequestView>, max: nat) -> Seq<(OptimizationKind, Seq<RequestView>)>
    decreases q.len(),
{
    if q.len() == 0 {
        Seq::empty()
    } else {
        let n = batch_len(q, max);
        if 0 < n <= q.len() {
            seq![(batch_kind(q[0]), q.take(n as int))] + plan(q.skip(n as int), max)
        } else {
            Seq::empty()
        }
    }
}

/// Whether the optimiser finishes on `q`: a batch limit above zero unless
/// every request forms a batch of its own, and no region request larger
/// than the coalescing limit.
pub open spec fn optimizable(q: Seq<RequestView>, max: nat) -> bool {
    &&& (max > 0 || forall|i: int| 0 <= i < q.len() ==> batch_kind(#[trigger] q[i]) == OptimizationKind::Eliminate)
    &&& forall|i: int| 0 <= i < q.len() ==> region_size(#[trigger] q[i]) <= REGION_COALESCE_LIMIT
}

/// The total allocation size of the region requests in `s`.
pub open spec fn region_total(s: Seq<RequestView>) -> int
    decreases s.len(),
{
    if s.len() == 0 {
        0
    } else {
        region_size(s[0]) + region_total(s.drop_first())
    }
}

/// The number of requests in `q` whose batches have kind `k`.
pub open spec fn count_kind(q: Seq<RequestView>, k: OptimizationKind) -> nat
    decreases q.len(),
{
    if q.len() == 0 {
        0
    } else {
        count_kind(q.drop_last(), k) + if batch_kind(q.last()) == k { 1nat } else { 0nat }
    }
}

/// The requests of a plan, concatenated in batch order.
pub open spec fn flatten(p: Seq<(OptimizationKind, Seq<RequestView>)>) -> Seq<RequestView>
    decreases p.len(),
{
    if p.len() == 0 {
        Seq::empty()
    } else {
        p[0].1 + flatten(p.drop_first())
    }
}

/// The shapes of a sequence of batches.
pub open spec fn batch_shapes(s: Seq<EffectBatch>) -> Seq<(OptimizationKind, Seq<RequestView>)> {
    s.map_values(|b: EffectBatch| b.shape())
}

} // verus!

verus! {

/// A run taken for a batch of kind `k` is no longer than the queue or the
/// room, and each of its requests has batch kind `k`.
pub proof fn lemma_run_shape(q: Seq<RequestView>, room: nat, k: OptimizationKind, total: int)
    ensures
        run_len(q, room, k, total) <= q.len(),
        run_len(q, room, k, total) <= room,
        forall|i: int| 0 <= i < run_len(q, room, k, total) ==> batch_kind(#[trigger] q[i]) == k,
    decreases q.len(),
{
    if !(q.len() == 0 || room == 0 || batch_kind(q[0]) != k)
        && !(k == OptimizationKind::CoalesceRegion && total + region_size(q[0]) > REGION_COALESCE_LIMIT) {
        lemma_run_shape(q.drop_first(), (room - 1) as nat, k, total + region_size(q[0]));
        assert forall|i: int| 0 <= i < run_len(q, room, k, total) implies batch_kind(#[trigger] q[i]) == k by {
            if i > 0 {
                assert(q[i] == q.drop_first()[i - 1]);
            }
        }
    }
}

/// A region run started at total `total` stays within the coalescing
/// limit, and a run of another batching kind that stops short of the room
/// and of the queue stops at a request of another kind.
pub proof fn lemma_run_limits(q: Seq<RequestView>, room: nat, k: OptimizationKind, total: int)
    requires
        total <= REGION_COALESCE_LIMIT,
    ensures
        k == OptimizationKind::CoalesceRegion ==>
            total + region_total(q.take(run_len(q, room, k, total) as int)) <= REGION_COALESCE_LIMIT,
        k != OptimizationKind::CoalesceRegion && run_len(q, room, k, total) < room && run_len(q, room, k, total) < q.len()
            ==> batch_kind(q[run_len(q, room, k, total) as int]) != k,
    decreases q.len(),
{
    let n = run_len(q, room, k, total);
    if q.len() == 0 || room == 0 || batch_kind(q[0]) != k {
        assert(q.take(0) =~= Seq::<RequestView>::empty());
    } else if k == OptimizationKind::CoalesceRegion && total + region_size(q[0]) > REGION_COALESCE_LIMIT {
        assert(q.take(0) =~= Seq::<RequestView>::empty());
    } else {
        let t = total + region_size(q[0]);
        lemma_run_limits(q.drop_first(), (room - 1) as nat, k, t);
        lemma_run_shape(q, room, k, total);
        assert(n == 1 + run_len(q.drop_first(), (room - 1) as nat, k, t));
        assert(q.take(n as int).drop_first() =~= q.drop_first().take(n - 1));
        assert(q.take(n as int)[0] == q[0]);
        if n < q.len() {
            assert(q[n as int] == q.drop_first()[n - 1]);
        }
    }
}

/// Counting over a concatenation adds the counts.
pub proof fn lemma_count_concat(a: Seq<RequestView>, b: Seq<RequestView>, k: OptimizationKind)
    ensures
        count_kind(a + b, k) == count_kind(a, k) + count_kind(b, k),
    decreases b.len(),
{
    if b.len() == 0 {
        assert(a + b =~= a);
    } else {
        lemma_count_concat(a, b.drop_last(), k);
        assert((a + b).drop_last() =~= a + b.drop_last());
    }
}

/// In a sequence whose requests all have batch kind `k`, every request
/// counts for `k` and none for another kind.
pub proof fn lemma_count_uniform(s: Seq<RequestView>, k: OptimizationKind, other: OptimizationKind)
    requires
        forall|i: int| 0 <= i < s.len() ==> batch_kind(#[trigger] s[i]) == k,
    ensures
        count_kind(s, k) == s.len(),
        other != k ==> count_kind(s, other) == 0,
    decreases s.len(),
{
    if s.len() > 0 {
        assert forall|i: int| 0 <= i < s.drop_last().len() implies batch_kind(#[trigger] s.drop_last()[i]) == k by {
            assert(s.drop_last()[i] == s[i]);
        }
        lemma_count_uniform(s.drop_last(), k, other);
    }
}

/// A queue the optimiser finishes on opens with a batch of at least one
/// request, and what remains after it is again such a queue.
pub proof fn lemma_first_batch(q: Seq<RequestView>, max: nat)
    requires
        q.len() > 0,
        optimizable(q, max),
    ensures
        0 < batch_len(q, max) <= q.len(),
        batch_kind(q[0]) != OptimizationKind::Eliminate ==> batch_len(q, max) <= max,
        forall|i: int| 0 <= i < batch_len(q, max) ==> batch_kind(#[trigger] q[i]) == batch_kind(q[0]),
        optimizable(q.skip(batch_len(q, max) as int), max),
{
    let k = batch_kind(q[0]);
    assert(region_size(q[0]) <= REGION_COALESCE_LIMIT);
    if k != OptimizationKind::Eliminate {
        lemma_run_shape(q, max, k, 0);
        assert(max > 0);
    }
    let n = batch_len(q, max) as int;
    let rest = q.skip(n);
    assert forall|i: int| 0 <= i < rest.len() implies region_size(#[trigger] rest[i]) <= REGION_COALESCE_LIMIT by {
        assert(rest[i] == q[i + n]);
    }
    assert forall|i: int| 0 <= i < rest.len() && max == 0 implies batch_kind(#[trigger] rest[i]) == OptimizationKind::Eliminate by {
        assert(rest[i] == q[i + n]);
    }
}

/// The plan puts every request of the queue into exactly one batch, in
/// queue order.
pub proof fn lemma_plan_partitions(q: Seq<RequestView>, max: nat)
    requires
        optimizable(q, max),
    ensures
        flatten(plan(q, max)) == q,
    decreases q.len(),
{
    if q.len() > 0 {
        lemma_first_batch(q, max);
        let n = batch_len(q, max) as int;
        lemma_plan_partitions(q.skip(n), max);
        let p = plan(q, max);
        assert(p.drop_first() =~= plan(q.skip(n), max));
        assert(q.take(n) + q.skip(n) =~= q);
    }
}

/// Every batch of the plan is non-empty; a batch of a batching kind holds
/// at most `max` requests, and any other batch exactly one; all requests
/// of a batch have the batch's kind; a region batch allocates at most the
/// coalescing limit in total; and an IO, state or async batch with fewer
/// than `max` requests is not followed by another batch of its kind.
pub proof fn lemma_plan_batches(q: Seq<RequestView>, max: nat, j: int)
    requires
        optimizable(q, max),
        0 <= j < plan(q, max).len(),
    ensures
        plan(q, max)[j].1.len() > 0,
        plan(q, max)[j].0 != OptimizationKind::Eliminate ==> plan(q, max)[j].1.len() <= max,
        plan(q, max)[j].0 == OptimizationKind::Eliminate ==> plan(q, max)[j].1.len() == 1,
        forall|i: int| 0 <= i < plan(q, max)[j].1.len() ==> batch_kind(#[trigger] plan(q, max)[j].1[i]) == plan(q, max)[j].0,
        plan(q, max)[j].0 == OptimizationKind::CoalesceRegion ==> region_total(plan(q, max)[j].1) <= REGION_COALESCE_LIMIT,
        ({
            let k = plan(q, max)[j].0;
            (k == OptimizationKind::BatchIO || k == OptimizationKind::Memoize || k == OptimizationKind::Parallelize)
                && plan(q, max)[j].1.len() < max && j + 1 < plan(q, max).len() ==> plan(q, max)[j + 1].0 != k
        }),
    decreases q.len(),
{
    lemma_first_batch(q, max);
    let n = batch_len(q, max) as int;
    if j > 0 {
        lemma_plan_batches(q.skip(n), max, j - 1);
        assert(plan(q, max)[j] == plan(q.skip(n), max)[j - 1]);
        if j + 1 < plan(q, max).len() {
            assert(plan(q, max)[j + 1] == plan(q.skip(n), max)[j]);
        }
    } else {
        let k = batch_kind(q[0]);
        if k != OptimizationKind::Eliminate {
            lemma_run_limits(q, max, k, 0);
        }
        if plan(q, max).len() > 1 {
            let rest = q.skip(n);
            assert(plan(q, max)[1] == plan(rest, max)[0]);
            assert(rest[0] == q[n]);
        }
        let b = plan(q, max)[0].1;
        assert(b == q.take(n));
        assert forall|i: int| 0 <= i < b.len() implies batch_kind(#[trigger] b[i]) == plan(q, max)[0].0 by {
            assert(b[i] == q[i]);
        }
    }
}

} // verus!

verus! {

/// Groups queued effects into batches.
pub struct EffectOptimizer {
    pending_effects: VecDeque<EffectRequest>,
    batches: Vec<EffectBatch>,
    stats: OptimizationStats,
    batch_timeout_ms: u32,
    max_batch_size: usize,
}

fn kind_of(r: &EffectRequest) -> (k: OptimizationKind)
    ensures
        k == batch_kind(r@),
{
    match r {
        EffectRequest::IO { .. } => OptimizationKind::BatchIO,
        EffectRequest::Region { .. } => OptimizationKind::CoalesceRegion,
        EffectRequest::State { .. } => OptimizationKind::Memoize,
        EffectRequest::Async { .. } => OptimizationKind::Parallelize,
        _ => OptimizationKind::Eliminate,
    }
}

fn size_of(r: &EffectRequest) -> (s: u32)
    ensures
        s == region_size(r@),
{
    match r {
        EffectRequest::Region { size, .. } => *size,
        _ => 0,
    }
}

impl EffectOptimizer {
    /// The queued requests, oldest first.
    pub closed spec fn pending(&self) -> Seq<RequestView> {
        request_views(self.pending_effects@)
    }

    /// The batches formed by the last optimisation pass.
    pub closed spec fn last_batches(&self) -> Seq<(OptimizationKind, Seq<RequestView>)> {
        batch_shapes(self.batches@)
    }

    /// The counters.
    pub closed spec fn counters(&self) -> OptimizationStats {
        self.stats
    }

    /// The largest number of requests in a batch of a batching kind.
    pub closed spec fn max_batch(&self) -> nat {
        self.max_batch_size as nat
    }

    /// The batch timeout the optimiser was made with.
    pub closed spec fn timeout_ms(&self) -> u32 {
        self.batch_timeout_ms
    }

    /// An optimiser with an empty queue and zero counters.
    pub fn new(batch_timeout_ms: u32, max_batch_size: usize) -> (o: Self)
        ensures
            o.pending() == Seq::<RequestView>::empty(),
            o.last_batches() == Seq::<(OptimizationKind, Seq<RequestView>)>::empty(),
            o.counters() == (OptimizationStats {
                batches_created: 0,
                effects_batched: 0,
                coalesced_regions: 0,
                coalesced_io: 0,
                total_latency_ms: 0,
                optimized_latency_ms: 0,
            }),
            o.max_batch() == max_batch_size,
            o.timeout_ms() == batch_timeout_ms,
    {
        let o = EffectOptimizer {
            pending_effects: VecDeque::new(),
            batches: Vec::new(),
            stats: OptimizationStats::default(),
            batch_timeout_ms,
            max_batch_size,
        };
        assert(o.pending() =~= Seq::<RequestView>::empty());
        assert(o.last_batches() =~= Seq::<(OptimizationKind, Seq<RequestView>)>::empty());
        o
    }

    /// Appends an effect to the queue.
    pub fn queue_effect(&mut self, req: EffectRequest)
        ensures
            final(self).pending() == old(self).pending().push(req@),
            final(self).last_batches() == old(self).last_batches(),
            final(self).counters() == old(self).counters(),
            final(self).max_batch() == old(self).max_batch(),
            final(self).timeout_ms() == old(self).timeout_ms(),
    {
        self.pending_effects.push_back(req);
        assert(self.pending() =~= old(self).pending().push(req@));
    }

    /// Moves the longest run at the front of the queue that may join a
    /// batch of kind `k` into a new batch.
    fn take_run(&mut self, k: OptimizationKind) -> (b: EffectBatch)
        requires
            k != OptimizationKind::Eliminate,
            forall|i: int| 0 <= i < old(self).pending().len() ==> region_size(#[trigger] old(self).pending()[i]) <= REGION_COALESCE_LIMIT,
        ensures
            b.kind == k,
            b.pipeline_id == 0,
            b.shape().1 == old(self).pending().take(run_len(old(self).pending(), old(self).max_batch(), k, 0) as int),
            final(self).pending() == old(self).pending().skip(run_len(old(self).pending(), old(self).max_batch(), k, 0) as int),
            final(self).batches == old(self).batches,
            final(self).stats == old(self).stats,
            final(self).max_batch_size == old(self).max_batch_size,
            final(self).batch_timeout_ms == old(self).batch_timeout_ms,
    {
        let ghost q = self.pending();
        let mut batch = EffectBatch::new(k);
        let mut count: usize = 0;
        let mut total: u32 = 0;
        let mut go = true;
        assert(q.skip(0) =~= q);
        assert(batch.shape().1 =~= q.take(0));
        while go
            invariant
                k != OptimizationKind::Eliminate,
                batch.kind == k,
                batch.pipeline_id == 0,
                q == old(self).pending(),
                forall|i: int| 0 <= i < q.len() ==> region_size(#[trigger] q[i]) <= REGION_COALESCE_LIMIT,
                count <= q.len(),
                count <= self.max_batch_size,
                total <= REGION_COALESCE_LIMIT,
                self.pending() == q.skip(count as int),
                batch.shape().1 == q.take(count as int),
                go ==> run_len(q, self.max_batch_size as nat, k, 0)
                    == count + run_len(q.skip(count as int), (self.max_batch_size - count) as nat, k, total as int),
                !go ==> run_len(q, self.max_batch_size as nat, k, 0) == count,
                self.batches == old(self).batches,
                self.stats == old(self).stats,
                self.max_batch_size == old(self).max_batch_size,
                self.batch_timeout_ms == old(self).batch_timeout_ms,
            decreases q.len() - count + if go { 1int } else { 0int },
        {
            let ghost rest = q.skip(count as int);
            if count >= self.max_batch_size || self.pending_effects.len() == 0 {
                go = false;
            } else {
                assert(rest[0] == self.pending_effects@[0]@);
                let front_kind = kind_of(&self.pending_effects[0]);
                let size = size_of(&self.pending_effects[0]);
                if front_kind != k {
                    go = false;
                } else if k == OptimizationKind::CoalesceRegion && total + size > REGION_COALESCE_LIMIT {
                    go = false;
                } else {
                    assert(region_size(q[count as int]) <= REGION_COALESCE_LIMIT);
                    let ghost before = batch.requests@;
                    let req = match self.pending_effects.pop_front() {
                        Some(r) => r,
                        None => {
                            assert(false);
                            return batch;
                        },
                    };
                    batch.add_request(req);
                    if k == OptimizationKind::CoalesceRegion {
                        total = total + size;
                    }
                    proof {
                        assert(rest.drop_first() =~= q.skip(count + 1));
                        assert(self.pending() =~= q.skip(count + 1));
                        assert(request_views(batch.requests@) =~= request_views(before).push(req@));
                        assert(q.take(count + 1) =~= q.take(count as int).push(q[count as int]));
                    }
                    count = count + 1;
                }
            }
        }
        batch
    }

    fn batch_io_operations(&mut self) -> (b: EffectBatch)
        requires
            forall|i: int| 0 <= i < old(self).pending().len() ==> region_size(#[trigger] old(self).pending()[i]) <= REGION_COALESCE_LIMIT,
            old(self).stats.coalesced_io + old(self).pending().len() <= u64::MAX,
            old(self).stats.effects_batched + old(self).pending().len() <= u64::MAX,
        ensures
            b.kind == OptimizationKind::BatchIO,
            b.pipeline_id == 0,
            b.shape().1 == old(self).pending().take(run_len(old(self).pending(), old(self).max_batch(), OptimizationKind::BatchIO, 0) as int),
            final(self).pending() == old(self).pending().skip(run_len(old(self).pending(), old(self).max_batch(), OptimizationKind::BatchIO, 0) as int),
            final(self).stats == (OptimizationStats {
                coalesced_io: (old(self).stats.coalesced_io + b.requests@.len()) as u64,
                effects_batched: (old(self).stats.effects_batched + b.requests@.len()) as u64,
                ..old(self).stats
            }),
            final(self).batches == old(self).batches,
            final(self).max_batch_size == old(self).max_batch_size,
            final(self).batch_timeout_ms == old(self).batch_timeout_ms,
    {
        let ghost q = self.pending();
        let batch = self.take_run(OptimizationKind::BatchIO);
        proof { lemma_run_shape(q, self.max_batch_size as nat, OptimizationKind::BatchIO, 0); }
        assert(request_views(batch.requests@).len() == batch.requests@.len());
        self.stats.coalesced_io = self.stats.coalesced_io + batch.size() as u64;
        self.stats.effects_batched = self.stats.effects_batched + batch.size() as u64;
        batch
    }

    fn coalesce_regions(&mut self) -> (b: EffectBatch)
        requires
            forall|i: int| 0 <= i < old(self).pending().len() ==> region_size(#[trigger] old(self).pending()[i]) <= REGION_COALESCE_LIMIT,
            old(self).stats.coalesced_regions + old(self).pending().len() <= u64::MAX,
            old(self).stats.effects_batched + old(self).pending().len() <= u64::MAX,
        ensures
            b.kind == OptimizationKind::CoalesceRegion,
            b.pipeline_id == 0,
            b.shape().1 == old(self).pending().take(run_len(old(self).pending(), old(self).max_batch(), OptimizationKind::CoalesceRegion, 0) as int),
            final(self).pending() == old(self).pending().skip(run_len(old(self).pending(), old(self).max_batch(), OptimizationKind::CoalesceRegion, 0) as int),
            final(self).stats == (OptimizationStats {
                coalesced_regions: (old(self).stats.coalesced_regions + b.requests@.len()) as u64,
                effects_batched: (old(self).stats.effects_batched + b.requests@.len()) as u64,
                ..old(self).stats
            }),
            final(self).batches == old(self).batches,
            final(self).max_batch_size == old(self).max_batch_size,
            final(self).batch_timeout_ms == old(self).batch_timeout_ms,
    {
        let ghost q = self.pending();
        let batch = self.take_run(OptimizationKind::CoalesceRegion);
        proof { lemma_run_shape(q, self.max_batch_size as nat, OptimizationKind::CoalesceRegion, 0); }
        assert(request_views(batch.requests@).len() == batch.requests@.len());
        self.stats.coalesced_regions = self.stats.coalesced_regions + batch.size() as u64;
        self.stats.effects_batched = self.stats.effects_batched + batch.size() as u64;
        batch
    }

    fn batch_state_operations(&mut self) -> (b: EffectBatch)
        requires
            forall|i: int| 0 <= i < old(self).pending().len() ==> region_size(#[trigger] old(self).pending()[i]) <= REGION_COALESCE_LIMIT,
            old(self).stats.effects_batched + old(self).pending().len() <= u64::MAX,
        ensures
            b.kind == OptimizationKind::Memoize,
            b.pipeline_id == 0,
            b.shape().1 == old(self).pending().take(run_len(old(self).pending(), old(self).max_batch(), OptimizationKind::Memoize, 0) as int),
            final(self).pending() == old(self).pending().skip(run_len(old(self).pending(), old(self).max_batch(), OptimizationKind::Memoize, 0) as int),
            final(self).stats == (OptimizationStats {
                effects_batched: (old(self).stats.effects_batched + b.requests@.len()) as u64,
                ..old(self).stats
            }),
            final(self).batches == old(self).batches,
            final(self).max_batch_size == old(self).max_batch_size,
            final(self).batch_timeout_ms == old(self).batch_timeout_ms,
    {
        let ghost q = self.pending();
        let batch = self.take_run(OptimizationKind::Memoize);
        proof { lemma_run_shape(q, self.max_batch_size as nat, OptimizationKind::Memoize, 0); }
        assert(request_views(batch.requests@).len() == batch.requests@.len());
        self.stats.effects_batched = self.stats.effects_batched + batch.size() as u64;
        batch
    }

    fn parallelize_async(&mut self) -> (b: EffectBatch)
        requires
            forall|i: int| 0 <= i < old(self).pending().len() ==> region_size(#[trigger] old(self).pending()[i]) <= REGION_COALESCE_LIMIT,
            old(self).stats.effects_batched + old(self).pending().len() <= u64::MAX,
        ensures
            b.kind == OptimizationKind::Parallelize,
            b.pipeline_id == 0,
            b.shape().1 == old(self).pending().take(run_len(old(self).pending(), old(self).max_batch(), OptimizationKind::Parallelize, 0) as int),
            final(self).pending() == old(self).pending().skip(run_len(old(self).pending(), old(self).max_batch(), OptimizationKind::Parallelize, 0) as int),
            final(self).stats == (OptimizationStats {
                effects_batched: (old(self).stats.effects_batched + b.requests@.len()) as u64,
                ..old(self).stats
            }),
            final(self).batches == old(self).batches,
            final(self).max_batch_size == old(self).max_batch_size,
            final(self).batch_timeout_ms == old(self).batch_timeout_ms,
    {
        let ghost q = self.pending();
        let batch = self.take_run(OptimizationKind::Parallelize);
        proof { lemma_run_shape(q, self.max_batch_size as nat, OptimizationKind::Parallelize, 0); }
        assert(request_views(batch.requests@).len() == batch.requests@.len());
        self.stats.effects_batched = self.stats.effects_batched + batch.size() as u64;
        batch
    }
}

} // verus!

verus! {

/// A count of one kind never exceeds the length.
pub proof fn lemma_count_bound(q: Seq<RequestView>, k: OptimizationKind)
    ensures
        count_kind(q, k) <= q.len(),
    decreases q.len(),
{
    if q.len() > 0 {
        lemma_count_bound(q.drop_last(), k);
    }
}

fn copy_batches(v: &Vec<EffectBatch>) -> (c: Vec<EffectBatch>)
    ensures
        batch_shapes(c@) == batch_shapes(v@),
{
    let mut c: Vec<EffectBatch> = Vec::new();
    let mut i: usize = 0;
    while i < v.len()
        invariant
            i <= v@.len(),
            c@.len() == i,
            forall|j: int| 0 <= j < i ==> #[trigger] c@[j].shape() == v@[j].shape(),
        decreases v@.len() - i,
    {
        let b = v[i].clone();
        c.push(b);
        i = i + 1;
    }
    assert(batch_shapes(c@) =~= batch_shapes(v@));
    c
}

impl EffectOptimizer {
    /// Empties the queue into batches, following `plan`, and keeps a copy of
    /// them. Requires a queue the optimiser finishes on (see `optimizable`)
    /// and counters that cannot overflow.
    pub fn optimize(&mut self) -> (r: Vec<EffectBatch>)
        requires
            optimizable(old(self).pending(), old(self).max_batch()),
            old(self).counters().batches_created + old(self).pending().len() <= u64::MAX,
            old(self).counters().effects_batched + old(self).pending().len() <= u64::MAX,
            old(self).counters().coalesced_io + old(self).pending().len() <= u64::MAX,
            old(self).counters().coalesced_regions + old(self).pending().len() <= u64::MAX,
        ensures
            batch_shapes(r@) == plan(old(self).pending(), old(self).max_batch()),
            forall|i: int| 0 <= i < r@.len() ==> (#[trigger] r@[i]).pipeline_id == 0,
            final(self).pending() == Seq::<RequestView>::empty(),
            final(self).last_batches() == batch_shapes(r@),
            final(self).counters() == (OptimizationStats {
                batches_created: (old(self).counters().batches_created + plan(old(self).pending(), old(self).max_batch()).len()) as u64,
                effects_batched: (old(self).counters().effects_batched + old(self).pending().len()
                    - count_kind(old(self).pending(), OptimizationKind::Eliminate)) as u64,
                coalesced_io: (old(self).counters().coalesced_io + count_kind(old(self).pending(), OptimizationKind::BatchIO)) as u64,
                coalesced_regions: (old(self).counters().coalesced_regions
                    + count_kind(old(self).pending(), OptimizationKind::CoalesceRegion)) as u64,
                ..old(self).counters()
            }),
            final(self).max_batch() == old(self).max_batch(),
            final(self).timeout_ms() == old(self).timeout_ms(),
    {
        let ghost q0 = self.pending();
        let ghost max = self.max_batch_size as nat;
        let ghost s0 = self.stats;
        let mut batches: Vec<EffectBatch> = Vec::new();
        let ghost mut consumed: int = 0;
        assert(q0.skip(0) =~= q0);
        assert(q0.take(0) =~= Seq::<RequestView>::empty());
        assert(batch_shapes(batches@) + plan(q0, max) =~= plan(q0, max));
        while self.pending_effects.len() > 0
            invariant
                0 <= consumed <= q0.len(),
                self.pending() == q0.skip(consumed),
                self.max_batch_size == max,
                self.batch_timeout_ms == old(self).batch_timeout_ms,
                optimizable(self.pending(), max),
                plan(q0, max) == batch_shapes(batches@) + plan(self.pending(), max),
                forall|i: int| 0 <= i < batches@.len() ==> (#[trigger] batches@[i]).pipeline_id == 0,
                batches@.len() <= consumed,
                s0 == old(self).stats,
                q0 == old(self).pending(),
                s0.batches_created + q0.len() <= u64::MAX,
                s0.effects_batched + q0.len() <= u64::MAX,
                s0.coalesced_io + q0.len() <= u64::MAX,
                s0.coalesced_regions + q0.len() <= u64::MAX,
                self.stats == (OptimizationStats {
                    effects_batched: (s0.effects_batched + consumed - count_kind(q0.take(consumed), OptimizationKind::Eliminate)) as u64,
                    coalesced_io: (s0.coalesced_io + count_kind(q0.take(consumed), OptimizationKind::BatchIO)) as u64,
                    coalesced_regions: (s0.coalesced_regions + count_kind(q0.take(consumed), OptimizationKind::CoalesceRegion)) as u64,
                    ..s0
                }),
            decreases self.pending().len(),
        {
            let ghost p = self.pending();
            let ghost old_shapes = batch_shapes(batches@);
            proof {
                lemma_first_batch(p, max);
                lemma_count_bound(q0.take(consumed), OptimizationKind::Eliminate);
                lemma_count_bound(q0.take(consumed), OptimizationKind::BatchIO);
                lemma_count_bound(q0.take(consumed), OptimizationKind::CoalesceRegion);
                assert(p[0] == self.pending_effects@[0]@);
            }
            let ghost n = batch_len(p, max) as int;
            let k = kind_of(&self.pending_effects[0]);
            let batch = match k {
                OptimizationKind::BatchIO => self.batch_io_operations(),
                OptimizationKind::CoalesceRegion => self.coalesce_regions(),
                OptimizationKind::Memoize => self.batch_state_operations(),
                OptimizationKind::Parallelize => self.parallelize_async(),
                OptimizationKind::Eliminate => {
                    let req = match self.pending_effects.pop_front() {
                        Some(r) => r,
                        None => {
                            assert(false);
                            return batches;
                        },
                    };
                    let mut b = EffectBatch::new(OptimizationKind::Eliminate);
                    b.add_request(req);
                    proof {
                        assert(self.pending() =~= p.skip(1));
                        assert(b.shape().1 =~= p.take(1));
                    }
                    b
                },
            };
            batches.push(batch);
            proof {
                let b = p.take(n);
                assert(batch_shapes(batches@) =~= old_shapes.push((k, b)));
                assert(plan(p, max) == seq![(k, b)] + plan(p.skip(n), max));
                assert(old_shapes.push((k, b)) + plan(p.skip(n), max) =~= old_shapes + (seq![(k, b)] + plan(p.skip(n), max)));
                assert(p.skip(n) =~= q0.skip(consumed + n));
                assert(q0.take(consumed + n) =~= q0.take(consumed) + b);
                assert forall|i: int| 0 <= i < b.len() implies batch_kind(#[trigger] b[i]) == k by {
                    assert(b[i] == p[i]);
                }
                lemma_count_concat(q0.take(consumed), b, OptimizationKind::Eliminate);
                lemma_count_concat(q0.take(consumed), b, OptimizationKind::BatchIO);
                lemma_count_concat(q0.take(consumed), b, OptimizationKind::CoalesceRegion);
                lemma_count_uniform(b, k, OptimizationKind::Eliminate);
                lemma_count_uniform(b, k, OptimizationKind::BatchIO);
                lemma_count_uniform(b, k, OptimizationKind::CoalesceRegion);
                consumed = consumed + n;
            }
        }
        proof {
            assert(self.pending().len() == 0);
            assert(consumed == q0.len());
            assert(q0.take(consumed) =~= q0);
            assert(plan(self.pending(), max) =~= Seq::<(OptimizationKind, Seq<RequestView>)>::empty());
            assert(plan(q0, max) =~= batch_shapes(batches@));
            assert(batches@.len() == batch_shapes(batches@).len());
        }
        self.stats.batches_created = self.stats.batches_created + batches.len() as u64;
        self.batches = copy_batches(&batches);
        batches
    }

    /// The counters.
    pub fn stats(&self) -> (s: &OptimizationStats)
        ensures
            *s == self.counters(),
    {
        &self.stats
    }

    /// The batches of the last optimisation pass.
    pub fn batches(&self) -> (b: &[EffectBatch])
        ensures
            batch_shapes(b@) == self.last_batches(),
    {
        self.batches.as_slice()
    }

    /// Adds a latency measurement before and after optimisation.
    pub fn record_latency(&mut self, original_ms: u64, optimized_ms: u64)
        requires
            old(self).counters().total_latency_ms + original_ms <= u64::MAX,
            old(self).counters().optimized_latency_ms + optimized_ms <= u64::MAX,
        ensures
            final(self).counters() == (OptimizationStats {
                total_latency_ms: (old(self).counters().total_latency_ms + original_ms) as u64,
                optimized_latency_ms: (old(self).counters().optimized_latency_ms + optimized_ms) as u64,
                ..old(self).counters()
            }),
            final(self).pending() == old(self).pending(),
            final(self).last_batches() == old(self).last_batches(),
            final(self).max_batch() == old(self).max_batch(),
            final(self).timeout_ms() == old(self).timeout_ms(),
    {
        self.stats.total_latency_ms = self.stats.total_latency_ms + original_ms;
        self.stats.optimized_latency_ms = self.stats.optimized_latency_ms + optimized_ms;
    }

    /// Drops the queued effects and the kept batches.
    pub fn clear(&mut self)
        ensures
            final(self).pending() == Seq::<RequestView>::empty(),
            final(self).last_batches() == Seq::<(OptimizationKind, Seq<RequestView>)>::empty(),
            final(self).counters() == old(self).counters(),
            final(self).max_batch() == old(self).max_batch(),
            final(self).timeout_ms() == old(self).timeout_ms(),
    {
        self.batches.clear();
        self.pending_effects.clear();
        assert(self.pending() =~= Seq::<RequestView>::empty());
        assert(self.last_batches() =~= Seq::<(OptimizationKind, Seq<RequestView>)>::empty());
    }

    /// The number of queued effects.
    pub fn pending_count(&self) -> (n: usize)
        ensures
            n == self.pending().len(),
    {
        self.pending_effects.len()
    }
}

impl Default for EffectOptimizer {
    fn default() -> (o: Self)
        ensures
            o.pending() == Seq::<RequestView>::empty(),
            o.max_batch() == 32,
            o.timeout_ms() == 100,
    {
        Self::new(100, 32)
    }
}

} // verus!

verus! {

/// A run of requests of kind `k` (other than region coalescing), no
/// longer than the room, joins one batch whole.
proof fn lemma_uniform_run(q: Seq<RequestView>, room: nat, k: OptimizationKind, total: int)
    requires
        k != OptimizationKind::CoalesceRegion,
        q.len() <= room,
        forall|i: int| 0 <= i < q.len() ==> batch_kind(#[trigger] q[i]) == k,
    ensures
        run_len(q, room, k, total) == q.len(),
    decreases q.len(),
{
    if q.len() > 0 {
        assert forall|i: int| 0 <= i < q.drop_first().len() implies batch_kind(#[trigger] q.drop_first()[i]) == k by {
            assert(q.drop_first()[i] == q[i + 1]);
        }
        lemma_uniform_run(q.drop_first(), (room - 1) as nat, k, total + region_size(q[0]));
    }
}

/// Law: state writes are memoised together. Every state request lands in
/// a batch of kind `Memoize`, and a queue of state requests alone, no more
/// than the batch limit, becomes a single `Memoize` batch holding all of
/// them in order.
pub proof fn lemma_state_requests_memoized(q: Seq<RequestView>, max: nat)
    requires
        optimizable(q, max),
    ensures
        forall|j: int, i: int| 0 <= j < plan(q, max).len() && 0 <= i < plan(q, max)[j].1.len()
            && (#[trigger] plan(q, max)[j].1[i]) is State ==> plan(q, max)[j].0 == OptimizationKind::Memoize,
        (0 < q.len() <= max && forall|i: int| 0 <= i < q.len() ==> (#[trigger] q[i]) is State)
            ==> plan(q, max) == seq![(OptimizationKind::Memoize, q)],
{
    assert forall|j: int, i: int| 0 <= j < plan(q, max).len() && 0 <= i < plan(q, max)[j].1.len()
        && (#[trigger] plan(q, max)[j].1[i]) is State implies plan(q, max)[j].0 == OptimizationKind::Memoize by {
        lemma_plan_batches(q, max, j);
        assert(batch_kind(plan(q, max)[j].1[i]) == plan(q, max)[j].0);
    }
    if 0 < q.len() <= max && forall|i: int| 0 <= i < q.len() ==> (#[trigger] q[i]) is State {
        assert forall|i: int| 0 <= i < q.len() implies batch_kind(#[trigger] q[i]) == OptimizationKind::Memoize by {
            assert(q[i] is State);
        }
        lemma_uniform_run(q, max, OptimizationKind::Memoize, 0);
        assert(batch_len(q, max) == q.len());
        assert(q.take(q.len() as int) =~= q);
        assert(q.skip(q.len() as int) =~= Seq::<RequestView>::empty());
        assert(plan(q.skip(q.len() as int), max) =~= Seq::<(OptimizationKind, Seq<RequestView>)>::empty());
        assert(plan(q, max) =~= seq![(OptimizationKind::Memoize, q)]);
    }
}

} // verus!
