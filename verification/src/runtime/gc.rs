//! A mark-and-sweep collector over byte objects: the objects named as
//! roots survive a collection, every other object is swept.

use vstd::prelude::*;
use std::collections::HashMap;
use vstd::std_specs::hash::spec_hash_map_iter;
use vstd::std_specs::iter::IteratorSpec;

verus! {

broadcast use vstd::std_specs::hash::group_hash_axioms;

/// A handle to a heap object.
#[derive(Debug, Clone, Copy, PartialEq, Eq, Hash)]
pub struct ObjectRef(u32);

impl ObjectRef {
    /// The object's number.
    pub closed spec fn index(&self) -> u32 {
        self.0
    }
}

/// Bookkeeping for a heap object.
#[derive(Debug, Clone, Copy)]
pub struct ObjectMetadata {
    pub size: usize,
    pub marked: bool,
    pub refcount: u32,
}

/// Counts of a collection: objects before and after, and how many were swept.
#[derive(Debug)]
pub struct GCStats {
    pub before: usize,
    pub after: usize,
    pub collected: usize,
}

/// The heap after resetting marks and marking the roots.
pub open spec fn marked_heap(h: Map<u32, (Seq<u8>, ObjectMetadata)>, roots: Seq<u32>) -> Map<u32, (Seq<u8>, ObjectMetadata)> {
    Map::new(|k: u32| h.contains_key(k), |k: u32| (h[k].0, ObjectMetadata { marked: roots.contains(k), ..h[k].1 }))
}

/// The marked objects of a heap.
pub open spec fn swept_heap(h: Map<u32, (Seq<u8>, ObjectMetadata)>) -> Map<u32, (Seq<u8>, ObjectMetadata)> {
    h.restrict(Set::new(|k: u32| h.contains_key(k) && h[k].1.marked))
}

/// The total data size of the objects at the keys in `ks`.
pub open spec fn data_total(h: Map<u32, (Seq<u8>, ObjectMetadata)>, ks: Seq<u32>) -> nat
    decreases ks.len(),
{
    if ks.len() == 0 {
        0
    } else {
        data_total(h, ks.drop_last()) + h[ks.last()].0.len()
    }
}

/// A collector with its heap and roots.
pub struct GarbageCollector {
    heap: HashMap<u32, (Vec<u8>, ObjectMetadata)>,
    object_counter: u32,
    roots: Vec<ObjectRef>,
}

impl GarbageCollector {
    /// The heap: each object's data and metadata.
    pub closed spec fn objects(&self) -> Map<u32, (Seq<u8>, ObjectMetadata)> {
        self.heap@.map_values(|v: (Vec<u8>, ObjectMetadata)| (v.0@, v.1))
    }

    /// The root objects.
    pub closed spec fn root_set(&self) -> Seq<u32> {
        self.roots@.map_values(|r: ObjectRef| r.0)
    }

    /// The number the next allocated object gets.
    pub closed spec fn next_index(&self) -> u32 {
        self.object_counter
    }

    /// An empty heap with no roots.
    pub fn new() -> (g: Self)
        ensures
            g.objects() == Map::<u32, (Seq<u8>, ObjectMetadata)>::empty(),
            g.root_set() == Seq::<u32>::empty(),
            g.next_index() == 0,
    {
        let g = GarbageCollector { heap: HashMap::new(), object_counter: 0, roots: Vec::new() };
        assert(g.objects() =~= Map::<u32, (Seq<u8>, ObjectMetadata)>::empty());
        assert(g.root_set() =~= Seq::<u32>::empty());
        g
    }

    /// Stores `data` as a new unmarked object and returns its handle.
    pub fn allocate(&mut self, data: Vec<u8>) -> (r: ObjectRef)
        requires
            old(self).next_index() < u32::MAX,
        ensures
            r.index() == old(self).next_index(),
            final(self).next_index() == old(self).next_index() + 1,
            final(self).objects() == old(self).objects().insert(r.index(),
                (data@, ObjectMetadata { size: data@.len() as usize, marked: false, refcount: 0 })),
            final(self).root_set() == old(self).root_set(),
    {
        let obj_ref = ObjectRef(self.object_counter);
        self.object_counter = self.object_counter + 1;
        let metadata = ObjectMetadata { size: data.len(), marked: false, refcount: 0 };
        let ghost d = data@;
        self.heap.insert(obj_ref.0, (data, metadata));
        assert(self.objects() =~= old(self).objects().insert(obj_ref.0, (d, metadata)));
        obj_ref
    }

    /// Adds a root unless it already is one.
    pub fn add_root(&mut self, obj_ref: ObjectRef)
        ensures
            final(self).root_set() == (if old(self).root_set().contains(obj_ref.index()) {
                old(self).root_set()
            } else {
                old(self).root_set().push(obj_ref.index())
            }),
            final(self).objects() == old(self).objects(),
            final(self).next_index() == old(self).next_index(),
    {
        let mut i: usize = 0;
        while i < self.roots.len()
            invariant
                i <= self.roots@.len(),
                forall|j: int| 0 <= j < i ==> self.root_set()[j] != obj_ref.0,
            decreases self.roots@.len() - i,
        {
            if self.roots[i].0 == obj_ref.0 {
                assert(self.root_set()[i as int] == obj_ref.0);
                return;
            }
            i = i + 1;
        }
        self.roots.push(obj_ref);
        assert(self.root_set() =~= old(self).root_set().push(obj_ref.0));
    }

    /// Removes every occurrence of a root.
    pub fn remove_root(&mut self, obj_ref: ObjectRef)
        ensures
            final(self).root_set() == old(self).root_set().filter(|r: u32| r != obj_ref.index()),
            final(self).objects() == old(self).objects(),
            final(self).next_index() == old(self).next_index(),
    {
        let ghost rs = self.root_set();
        let mut kept: Vec<ObjectRef> = Vec::new();
        proof {
            reveal(Seq::filter);
            assert(rs.take(0) =~= Seq::<u32>::empty());
            assert(kept@.map_values(|r: ObjectRef| r.0) =~= Seq::<u32>::empty());
        }
        let mut i: usize = 0;
        while i < self.roots.len()
            invariant
                rs == self.root_set(),
                i <= rs.len(),
                kept@.map_values(|r: ObjectRef| r.0) == rs.take(i as int).filter(|r: u32| r != obj_ref.0),
            decreases rs.len() - i,
        {
            let r = self.roots[i];
            let ghost before = kept@;
            proof {
                reveal(Seq::filter);
                assert(rs.take(i + 1).drop_last() =~= rs.take(i as int));
                assert(rs.take(i + 1).last() == r.0);
            }
            if r.0 != obj_ref.0 {
                kept.push(r);
                assert(kept@.map_values(|r: ObjectRef| r.0) =~= before.map_values(|r: ObjectRef| r.0).push(r.0));
            }
            proof { reveal(Seq::filter); }
            i = i + 1;
        }
        assert(rs.take(rs.len() as int) =~= rs);
        self.roots = kept;
    }

    fn keys(&self) -> (ks: Vec<u32>)
        ensures
            ks@.no_duplicates(),
            forall|k: u32| ks@.contains(k) <==> self.heap@.contains_key(k),
    {
        let ghost m = self.heap@;
        let ghost all = spec_hash_map_iter(&self.heap).remaining();
        let ghost mut n: int = 0;
        let mut ks: Vec<u32> = Vec::new();
        for pair in it: self.heap.iter()
            invariant
                m == self.heap@,
                all == it.seq(),
                n == it.index(),
                it.seq().no_duplicates(),
                forall|i: int| #![trigger it.seq()[i]] 0 <= i < it.seq().len() ==> m.contains_key(*it.seq()[i].0) && m[*it.seq()[i].0] == *it.seq()[i].1,
                forall|k: u32| #[trigger] m.contains_key(k) ==> it.seq().contains((&k, &m[k])),
                ks@.len() == it.index(),
                forall|j: int| 0 <= j < ks@.len() ==> #[trigger] ks@[j] == *it.seq()[j].0,
        {
            let (k, _v) = pair;
            proof { n = n + 1; }
            ks.push(*k);
        }
        proof {
            assert forall|a: int, b: int| 0 <= a < b < ks@.len() implies ks@[a] != ks@[b] by {
                if ks@[a] == ks@[b] {
                    assert(m[*all[a].0] == *all[a].1);
                    assert(m[*all[b].0] == *all[b].1);
                    assert(all[a] == all[b]);
                }
            }
            assert forall|k: u32| ks@.contains(k) <==> m.contains_key(k) by {
                if m.contains_key(k) {
                    assert(all.contains((&k, &m[k])));
                    let i = choose|i: int| 0 <= i < all.len() && all[i] == (&k, &m[k]);
                    assert(ks@[i] == k);
                }
                if ks@.contains(k) {
                    let j = choose|j: int| 0 <= j < ks@.len() && ks@[j] == k;
                    assert(m.contains_key(*all[j].0));
                }
            }
        }
        ks
    }
}

} // verus!

verus! {

impl GarbageCollector {
    fn set_mark(&mut self, k: u32, marked: bool)
        requires
            old(self).heap@.contains_key(k),
        ensures
            final(self).objects() == old(self).objects().insert(k,
                (old(self).objects()[k].0, ObjectMetadata { marked, ..old(self).objects()[k].1 })),
            final(self).roots == old(self).roots,
            final(self).object_counter == old(self).object_counter,
    {
        let entry = match self.heap.remove(&k) {
            Some(e) => e,
            None => {
                assert(false);
                return;
            },
        };
        let (data, mut meta) = entry;
        meta.marked = marked;
        let ghost d = data@;
        self.heap.insert(k, (data, meta));
        assert(self.objects() =~= old(self).objects().insert(k, (d, meta)));
    }

    fn mark_recursive(&mut self, obj_ref: ObjectRef)
        ensures
            final(self).objects() == (if old(self).objects().contains_key(obj_ref.index()) {
                old(self).objects().insert(obj_ref.index(), (old(self).objects()[obj_ref.index()].0,
                    ObjectMetadata { marked: true, ..old(self).objects()[obj_ref.index()].1 }))
            } else {
                old(self).objects()
            }),
            final(self).roots == old(self).roots,
            final(self).object_counter == old(self).object_counter,
    {
        let unmarked = match self.heap.get(&obj_ref.0) {
            Some(v) => !v.1.marked,
            None => false,
        };
        if unmarked {
            self.set_mark(obj_ref.0, true);
        } else {
            proof {
                if old(self).objects().contains_key(obj_ref.0) {
                    assert(self.objects().insert(obj_ref.0, (self.objects()[obj_ref.0].0,
                        ObjectMetadata { marked: true, ..self.objects()[obj_ref.0].1 })) =~= self.objects());
                }
            }
        }
    }

    /// Clears every mark, then marks the root objects.
    pub fn mark_phase(&mut self)
        ensures
            final(self).objects() == marked_heap(old(self).objects(), old(self).root_set()),
            final(self).root_set() == old(self).root_set(),
            final(self).next_index() == old(self).next_index(),
    {
        let ghost h0 = self.objects();
        let ks = self.keys();
        let mut i: usize = 0;
        while i < ks.len()
            invariant
                self.roots == old(self).roots,
                self.object_counter == old(self).object_counter,
                ks@.no_duplicates(),
                forall|k: u32| ks@.contains(k) <==> h0.contains_key(k),
                i <= ks@.len(),
                self.objects().dom() == h0.dom(),
                forall|k: u32| #[trigger] h0.contains_key(k) ==> self.objects()[k] == (h0[k].0,
                    ObjectMetadata { marked: if ks@.take(i as int).contains(k) { false } else { h0[k].1.marked }, ..h0[k].1 }),
            decreases ks@.len() - i,
        {
            let k = ks[i];
            assert(h0.contains_key(k) && ks@.contains(k));
            assert(self.heap@.contains_key(k));
            self.set_mark(k, false);
            proof {
                let s0 = ks@.take(i as int);
                assert(ks@.take(i + 1) =~= s0.push(k));
                assert forall|x: u32| #[trigger] s0.push(k).contains(x) <==> (s0.contains(x) || x == k) by {
                    if s0.push(k).contains(x) {
                        let j = choose|j: int| #![trigger s0.push(k)[j]] 0 <= j < s0.len() + 1 && s0.push(k)[j] == x;
                        if j < s0.len() {
                            assert(s0[j] == x);
                        }
                    }
                    if s0.contains(x) {
                        let j = choose|j: int| #![trigger s0[j]] 0 <= j < s0.len() && s0[j] == x;
                        assert(s0.push(k)[j] == x);
                    }
                    if x == k {
                        assert(s0.push(k)[s0.len() as int] == x);
                    }
                }
                assert(self.objects().dom() =~= h0.dom());
            }
            i = i + 1;
        }
        let roots = self.roots.clone();
        let mut j: usize = 0;
        assert(ks@.take(ks@.len() as int) =~= ks@);
        while j < roots.len()
            invariant
                roots@ == self.roots@,
                self.roots == old(self).roots,
                self.object_counter == old(self).object_counter,
                j <= roots@.len(),
                self.objects().dom() == h0.dom(),
                forall|k: u32| #[trigger] h0.contains_key(k) ==> self.objects()[k] == (h0[k].0,
                    ObjectMetadata { marked: self.root_set().take(j as int).contains(k), ..h0[k].1 }),
            decreases roots@.len() - j,
        {
            let r = roots[j];
            self.mark_recursive(r);
            proof {
                let rs = self.root_set();
                assert(rs[j as int] == r.0);
                let s0 = rs.take(j as int);
                assert(rs.take(j + 1) =~= s0.push(r.0));
                assert forall|x: u32| #[trigger] s0.push(r.0).contains(x) <==> (s0.contains(x) || x == r.0) by {
                    if s0.push(r.0).contains(x) {
                        let a = choose|a: int| #![trigger s0.push(r.0)[a]] 0 <= a < s0.len() + 1 && s0.push(r.0)[a] == x;
                        if a < s0.len() {
                            assert(s0[a] == x);
                        }
                    }
                    if s0.contains(x) {
                        let a = choose|a: int| #![trigger s0[a]] 0 <= a < s0.len() && s0[a] == x;
                        assert(s0.push(r.0)[a] == x);
                    }
                    if x == r.0 {
                        assert(s0.push(r.0)[s0.len() as int] == x);
                    }
                }
                assert(self.objects().dom() =~= h0.dom());
            }
            j = j + 1;
        }
        proof {
            assert(self.root_set().take(self.root_set().len() as int) =~= self.root_set());
            assert(self.objects() =~= marked_heap(h0, old(self).root_set()));
        }
    }
}

} // verus!

verus! {

impl GarbageCollector {
    /// Removes every unmarked object and returns how many were removed.
    pub fn sweep_phase(&mut self) -> (collected: usize)
        ensures
            final(self).objects() == swept_heap(old(self).objects()),
            collected + final(self).objects().dom().len() == old(self).objects().dom().len(),
            final(self).root_set() == old(self).root_set(),
            final(self).next_index() == old(self).next_index(),
    {
        let ghost h0 = self.objects();
        let ks = self.keys();
        let n0 = self.heap.len();
        assert(h0.dom() =~= self.heap@.dom());
        let mut collected: usize = 0;
        let mut i: usize = 0;
        while i < ks.len()
            invariant
                self.roots == old(self).roots,
                self.object_counter == old(self).object_counter,
                ks@.no_duplicates(),
                forall|k: u32| ks@.contains(k) <==> h0.contains_key(k),
                i <= ks@.len(),
                n0 == h0.dom().len(),
                self.objects().dom().finite(),
                collected + self.objects().dom().len() == n0,
                forall|k: u32| #[trigger] self.objects().contains_key(k) <==>
                    (h0.contains_key(k) && (h0[k].1.marked || !ks@.take(i as int).contains(k))),
                forall|k: u32| #[trigger] self.objects().contains_key(k) ==> self.objects()[k] == h0[k],
            decreases ks@.len() - i,
        {
            let k = ks[i];
            let ghost s0 = ks@.take(i as int);
            proof {
                assert(ks@.take(i + 1) =~= s0.push(k));
                assert(!s0.contains(k)) by {
                    if s0.contains(k) {
                        let a = choose|a: int| #![trigger s0[a]] 0 <= a < s0.len() && s0[a] == k;
                        assert(ks@[a] == ks@[i as int]);
                    }
                }
                assert forall|x: u32| #[trigger] s0.push(k).contains(x) <==> (s0.contains(x) || x == k) by {
                    if s0.push(k).contains(x) {
                        let a = choose|a: int| #![trigger s0.push(k)[a]] 0 <= a < s0.len() + 1 && s0.push(k)[a] == x;
                        if a < s0.len() {
                            assert(s0[a] == x);
                        }
                    }
                    if s0.contains(x) {
                        let a = choose|a: int| #![trigger s0[a]] 0 <= a < s0.len() && s0[a] == x;
                        assert(s0.push(k)[a] == x);
                    }
                    if x == k {
                        assert(s0.push(k)[s0.len() as int] == x);
                    }
                }
                assert(h0.contains_key(k));
                assert(self.objects().contains_key(k));
            }
            let unmarked = match self.heap.get(&k) {
                Some(v) => !v.1.marked,
                None => false,
            };
            let ghost pre = self.objects();
            assert(pre[k] == h0[k]);
            assert(unmarked == !h0[k].1.marked);
            if unmarked {
                let _removed = self.heap.remove(&k);
                assert(collected < n0);
                collected = collected + 1;
                proof {
                    assert(self.objects() =~= pre.remove(k));
                    assert(self.objects().dom() =~= pre.dom().remove(k));
                }
            }
            proof {
                assert forall|x: u32| #[trigger] self.objects().contains_key(x) <==>
                    (h0.contains_key(x) && (h0[x].1.marked || !ks@.take(i + 1).contains(x))) by {
                    if x != k {
                        assert(self.objects().contains_key(x) == pre.contains_key(x));
                    }
                }
            }
            i = i + 1;
        }
        proof {
            assert(ks@.take(ks@.len() as int) =~= ks@);
            assert(self.objects() =~= swept_heap(h0));
        }
        collected
    }
}

} // verus!

verus! {

/// A collection keeps exactly the root objects, with their data.
pub proof fn lemma_collection_keeps_roots(h: Map<u32, (Seq<u8>, ObjectMetadata)>, roots: Seq<u32>)
    ensures
        forall|k: u32| #[trigger] swept_heap(marked_heap(h, roots)).contains_key(k) <==> (h.contains_key(k) && roots.contains(k)),
        forall|k: u32| #[trigger] swept_heap(marked_heap(h, roots)).contains_key(k) ==> swept_heap(marked_heap(h, roots))[k].0 == h[k].0,
{
}

/// Whether `ks` lists each key of `m` once.
pub open spec fn enumerates(ks: Seq<u32>, m: Map<u32, (Seq<u8>, ObjectMetadata)>) -> bool {
    ks.no_duplicates() && forall|k: u32| ks.contains(k) <==> m.contains_key(k)
}

impl GarbageCollector {
    /// Marks the roots, sweeps the rest, and reports the object counts.
    pub fn collect(&mut self) -> (stats: GCStats)
        ensures
            final(self).objects() == swept_heap(marked_heap(old(self).objects(), old(self).root_set())),
            stats.before == old(self).objects().dom().len(),
            stats.after == final(self).objects().dom().len(),
            stats.collected + stats.after == stats.before,
            final(self).root_set() == old(self).root_set(),
            final(self).next_index() == old(self).next_index(),
    {
        let before = self.heap.len();
        assert(self.objects().dom() =~= self.heap@.dom());
        self.mark_phase();
        let collected = self.sweep_phase();
        let after = self.heap.len();
        assert(self.objects().dom() =~= self.heap@.dom());
        GCStats { before, after, collected }
    }

    /// The total data size of the objects.
    pub fn heap_size(&self) -> (n: usize)
        requires
            forall|ks: Seq<u32>| enumerates(ks, self.objects()) ==> data_total(self.objects(), ks) <= usize::MAX,
        ensures
            exists|ks: Seq<u32>| enumerates(ks, self.objects()) && n == data_total(self.objects(), ks),
    {
        let ks = self.keys();
        let ghost h = self.objects();
        assert(enumerates(ks@, h)) by {
            assert forall|k: u32| ks@.contains(k) <==> h.contains_key(k) by {
                assert(self.heap@.contains_key(k) == h.contains_key(k));
            }
        }
        let mut total: usize = 0;
        let mut i: usize = 0;
        while i < ks.len()
            invariant
                h == self.objects(),
                enumerates(ks@, h),
                i <= ks@.len(),
                total == data_total(h, ks@.take(i as int)),
                data_total(h, ks@) <= usize::MAX,
            decreases ks@.len() - i,
        {
            let k = ks[i];
            proof {
                assert(ks@.take(i + 1).drop_last() =~= ks@.take(i as int));
                lemma_data_total_prefix(h, ks@, i + 1);
                assert(h.contains_key(k)) by {
                    assert(ks@.contains(k));
                }
            }
            let len = match self.heap.get(&k) {
                Some(v) => v.0.len(),
                None => 0,
            };
            total = total + len;
            i = i + 1;
        }
        assert(ks@.take(ks@.len() as int) =~= ks@);
        total
    }

    /// The number of objects.
    pub fn live_objects(&self) -> (n: usize)
        ensures
            n == self.objects().dom().len(),
    {
        assert(self.objects().dom() =~= self.heap@.dom());
        self.heap.len()
    }
}

/// A prefix's total is at most the whole total.
pub proof fn lemma_data_total_prefix(h: Map<u32, (Seq<u8>, ObjectMetadata)>, ks: Seq<u32>, n: int)
    requires
        0 <= n <= ks.len(),
    ensures
        data_total(h, ks.take(n)) <= data_total(h, ks),
    decreases ks.len(),
{
    if n < ks.len() {
        assert(ks.drop_last().take(n) =~= ks.take(n));
        lemma_data_total_prefix(h, ks.drop_last(), n);
    } else {
        assert(ks.take(n) =~= ks);
    }
}

} // verus!
