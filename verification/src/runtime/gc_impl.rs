//! A tracing collector: objects refer to one another by id, and a
//! collection keeps exactly the objects reachable from the roots, freeing
//! the rest.

use vstd::prelude::*;
use std::collections::{HashMap, HashSet};
use vstd::std_specs::hash::spec_hash_map_iter;
use vstd::std_specs::iter::IteratorSpec;

verus! {

broadcast use vstd::std_specs::hash::group_hash_axioms;

/// A heap object: its id, size, mark and the ids it refers to.
#[derive(Debug)]
pub struct HeapObject {
    pub id: u64,
    pub size: usize,
    pub marked: bool,
    pub refs: Vec<u64>,
}

/// A heap object with its references as a sequence.
pub struct ObjView {
    pub id: u64,
    pub size: usize,
    pub marked: bool,
    pub refs: Seq<u64>,
}

impl View for HeapObject {
    type V = ObjView;

    open spec fn view(&self) -> ObjView {
        ObjView { id: self.id, size: self.size, marked: self.marked, refs: self.refs@ }
    }
}

impl Clone for HeapObject {
    fn clone(&self) -> (r: Self)
        ensures
            r@ == self@,
    {
        HeapObject { id: self.id, size: self.size, marked: self.marked, refs: self.refs.clone() }
    }
}

/// Whether object `a` exists and refers to `b`.
pub open spec fn edge(objs: Map<u64, ObjView>, a: u64, b: u64) -> bool {
    objs.contains_key(a) && objs[a].refs.contains(b)
}

/// Whether `p` is a chain of references.
pub open spec fn is_path(objs: Map<u64, ObjView>, p: Seq<u64>) -> bool {
    &&& p.len() > 0
    &&& forall|i: int| 0 <= i < p.len() - 1 ==> #[trigger] edge(objs, p[i], p[i + 1])
}

/// Whether `x` can be reached from a root by following references.
pub open spec fn reachable(objs: Map<u64, ObjView>, roots: Seq<u64>, x: u64) -> bool {
    exists|p: Seq<u64>| #[trigger] is_path(objs, p) && roots.contains(p[0]) && p.last() == x
}

/// The objects that survive a collection: those reachable from the roots.
pub open spec fn survivors(objs: Map<u64, ObjView>, roots: Seq<u64>) -> Map<u64, ObjView> {
    objs.restrict(Set::new(|k: u64| reachable(objs, roots, k)))
}

/// The total size of the objects at the keys in `ks`.
pub open spec fn size_total(objs: Map<u64, ObjView>, ks: Seq<u64>) -> nat
    decreases ks.len(),
{
    if ks.len() == 0 {
        0
    } else {
        size_total(objs, ks.drop_last()) + objs[ks.last()].size as nat
    }
}

/// The references still to be followed from the unmarked objects among `ks`.
pub open spec fn unmarked_refs(objs: Map<u64, ObjView>, ks: Seq<u64>, marked: Set<u64>) -> nat
    decreases ks.len(),
{
    if ks.len() == 0 {
        0
    } else {
        unmarked_refs(objs, ks.drop_last(), marked) + if !marked.contains(ks.last()) && objs.contains_key(ks.last()) {
            objs[ks.last()].refs.len()
        } else {
            0
        }
    }
}

/// Marking `x` removes its references from the count when it is listed
/// (once) and unmarked, and changes nothing otherwise.
pub proof fn lemma_unmarked_refs_mark(objs: Map<u64, ObjView>, ks: Seq<u64>, marked: Set<u64>, x: u64)
    requires
        ks.no_duplicates(),
    ensures
        ks.contains(x) && !marked.contains(x) && objs.contains_key(x) ==>
            unmarked_refs(objs, ks, marked.insert(x)) + objs[x].refs.len() == unmarked_refs(objs, ks, marked),
        !(ks.contains(x) && !marked.contains(x) && objs.contains_key(x)) ==>
            unmarked_refs(objs, ks, marked.insert(x)) == unmarked_refs(objs, ks, marked),
    decreases ks.len(),
{
    if ks.len() > 0 {
        let init = ks.drop_last();
        assert(init.no_duplicates()) by {
            assert forall|a: int, b: int| 0 <= a < b < init.len() implies init[a] != init[b] by {
                assert(init[a] == ks[a] && init[b] == ks[b]);
            }
        }
        lemma_unmarked_refs_mark(objs, init, marked, x);
        if marked.contains(x) {
            assert(marked.insert(x) =~= marked);
        }
        if ks.last() == x {
            assert(!init.contains(x)) by {
                if init.contains(x) {
                    let a = choose|a: int| 0 <= a < init.len() && init[a] == x;
                    assert(ks[a] == ks[ks.len() - 1]);
                }
            }
        } else {
            assert(ks.contains(x) ==> init.contains(x)) by {
                if ks.contains(x) {
                    let a = choose|a: int| 0 <= a < ks.len() && ks[a] == x;
                    assert(init[a] == x);
                }
            }
            assert(init.contains(x) ==> ks.contains(x)) by {
                if init.contains(x) {
                    let a = choose|a: int| 0 <= a < init.len() && init[a] == x;
                    assert(ks[a] == x);
                }
            }
        }
    }
}

/// A set that holds the roots and, with each held object, everything it
/// refers to, holds every reachable object.
pub proof fn lemma_closed_holds_reachable(objs: Map<u64, ObjView>, roots: Seq<u64>, marked: Set<u64>, x: u64)
    requires
        forall|r: u64| roots.contains(r) ==> marked.contains(r),
        forall|m: u64, r: u64| marked.contains(m) && #[trigger] edge(objs, m, r) ==> marked.contains(r),
        reachable(objs, roots, x),
    ensures
        marked.contains(x),
{
    let p = choose|p: Seq<u64>| #[trigger] is_path(objs, p) && roots.contains(p[0]) && p.last() == x;
    lemma_path_held(objs, marked, p, p.len() - 1);
}

/// Along a path whose start is held by a set closed under references,
/// every position is held.
pub proof fn lemma_path_held(objs: Map<u64, ObjView>, marked: Set<u64>, p: Seq<u64>, i: int)
    requires
        is_path(objs, p),
        marked.contains(p[0]),
        forall|m: u64, r: u64| marked.contains(m) && #[trigger] edge(objs, m, r) ==> marked.contains(r),
        0 <= i < p.len(),
    ensures
        marked.contains(p[i]),
    decreases i,
{
    if i > 0 {
        lemma_path_held(objs, marked, p, i - 1);
        let j = i - 1;
        assert(edge(objs, p[j], p[j + 1]));
    }
}

} // verus!

verus! {

/// Whether `ks` lists each key of `m` once.
pub open spec fn lists_keys(ks: Seq<u64>, m: Map<u64, ObjView>) -> bool {
    ks.no_duplicates() && forall|k: u64| ks.contains(k) <==> m.contains_key(k)
}

/// A collector over objects that refer to each other.
pub struct GarbageCollector {
    objects: HashMap<u64, HeapObject>,
    roots: Vec<u64>,
    marked: HashSet<u64>,
    next_id: u64,
}

impl GarbageCollector {
    /// The objects by id.
    pub closed spec fn objs(&self) -> Map<u64, ObjView> {
        self.objects@.map_values(|o: HeapObject| o@)
    }

    /// The roots, in the order they were added.
    pub closed spec fn root_list(&self) -> Seq<u64> {
        self.roots@
    }

    /// The id the next allocation gets.
    pub closed spec fn next(&self) -> u64 {
        self.next_id
    }

    /// Each object is stored under its own id.
    pub open spec fn wf(&self) -> bool {
        forall|k: u64| #[trigger] self.objs().contains_key(k) ==> self.objs()[k].id == k
    }

    /// An empty heap; the first id is 1.
    pub fn new() -> (g: Self)
        ensures
            g.wf(),
            g.objs() == Map::<u64, ObjView>::empty(),
            g.root_list() == Seq::<u64>::empty(),
            g.next() == 1,
    {
        let g = GarbageCollector { objects: HashMap::new(), roots: Vec::new(), marked: HashSet::new(), next_id: 1 };
        assert(g.objs() =~= Map::<u64, ObjView>::empty());
        g
    }

    /// Allocates an object of `size` bytes with no references and returns its id.
    pub fn allocate(&mut self, size: usize) -> (id: u64)
        requires
            old(self).wf(),
            old(self).next() < u64::MAX,
        ensures
            final(self).wf(),
            id == old(self).next(),
            final(self).next() == old(self).next() + 1,
            final(self).objs() == old(self).objs().insert(id, ObjView { id, size, marked: false, refs: Seq::empty() }),
            final(self).root_list() == old(self).root_list(),
    {
        let id = self.next_id;
        self.next_id = self.next_id + 1;
        let obj = HeapObject { id, size, marked: false, refs: Vec::new() };
        let ghost ov = obj@;
        self.objects.insert(id, obj);
        assert(ov.refs =~= Seq::<u64>::empty());
        assert(self.objs() =~= old(self).objs().insert(id, ov));
        id
    }

    /// Adds a root.
    pub fn add_root(&mut self, ptr: u64)
        ensures
            final(self).root_list() == old(self).root_list().push(ptr),
            final(self).objs() == old(self).objs(),
            final(self).next() == old(self).next(),
            final(self).wf() == old(self).wf(),
    {
        self.roots.push(ptr);
    }

    /// Records that object `from` refers to `to` (nothing when `from` does
    /// not exist).
    pub fn add_ref(&mut self, from: u64, to: u64)
        requires
            old(self).wf(),
        ensures
            final(self).wf(),
            final(self).objs() == (if old(self).objs().contains_key(from) {
                old(self).objs().insert(from, ObjView { refs: old(self).objs()[from].refs.push(to), ..old(self).objs()[from] })
            } else {
                old(self).objs()
            }),
            final(self).root_list() == old(self).root_list(),
            final(self).next() == old(self).next(),
    {
        match self.objects.remove(&from) {
            Some(obj) => {
                let mut o = obj;
                o.refs.push(to);
                let ghost ov = o@;
                self.objects.insert(from, o);
                proof {
                    assert(self.objs() =~= old(self).objs().insert(from, ov));
                    assert forall|k: u64| #[trigger] self.objs().contains_key(k) implies self.objs()[k].id == k by {
                        if k != from {
                            assert(old(self).objs().contains_key(k));
                        } else {
                            assert(old(self).objs().contains_key(from));
                        }
                    }
                }
            },
            None => {
                assert(self.objs() =~= old(self).objs());
            },
        }
    }

    fn keys(&self) -> (ks: Vec<u64>)
        ensures
            lists_keys(ks@, self.objs()),
    {
        let ghost m = self.objects@;
        let ghost all = spec_hash_map_iter(&self.objects).remaining();
        let ghost mut n: int = 0;
        let mut ks: Vec<u64> = Vec::new();
        for pair in it: self.objects.iter()
            invariant
                m == self.objects@,
                all == it.seq(),
                n == it.index(),
                it.seq().no_duplicates(),
                forall|i: int| #![trigger it.seq()[i]] 0 <= i < it.seq().len() ==> m.contains_key(*it.seq()[i].0) && m[*it.seq()[i].0] == *it.seq()[i].1,
                forall|k: u64| #[trigger] m.contains_key(k) ==> it.seq().contains((&k, &m[k])),
                ks@.len() == it.index(),
                forall|j: int| 0 <= j < ks@.len() ==> #[trigger] ks@[j] == *it.seq()[j].0,
        {
            let (k, _v) = pair;
            proof { n = n + 1; }
            ks.push(*k);
        }
        proof {
            assert forall|a: int, b: int| 0 <= a < b < ks@.len() implies ks@[a] != ks@[b] by {
                if ks@[a] == ks@[b] {
                    assert(m[*all[a].0] == *all[a].1);
                    assert(m[*all[b].0] == *all[b].1);
                    assert(all[a] == all[b]);
                }
            }
            assert forall|k: u64| ks@.contains(k) <==> self.objs().contains_key(k) by {
                if m.contains_key(k) {
                    assert(all.contains((&k, &m[k])));
                    let i = choose|i: int| 0 <= i < all.len() && all[i] == (&k, &m[k]);
                    assert(ks@[i] == k);
                }
                if ks@.contains(k) {
                    let j = choose|j: int| 0 <= j < ks@.len() && ks@[j] == k;
                    assert(m.contains_key(*all[j].0));
                }
            }
        }
        ks
    }
}

} // verus!

verus! {

/// A reachable object's references are reachable.
pub proof fn lemma_reach_step(objs: Map<u64, ObjView>, roots: Seq<u64>, x: u64, r: u64)
    requires
        reachable(objs, roots, x),
        edge(objs, x, r),
    ensures
        reachable(objs, roots, r),
{
    let p = choose|p: Seq<u64>| #[trigger] is_path(objs, p) && roots.contains(p[0]) && p.last() == x;
    let q = p.push(r);
    assert forall|i: int| 0 <= i < q.len() - 1 implies #[trigger] edge(objs, q[i], q[i + 1]) by {
        if i < p.len() - 1 {
            assert(edge(objs, p[i], p[i + 1]));
            assert(q[i] == p[i] && q[i + 1] == p[i + 1]);
        } else {
            assert(q[i] == x && q[i + 1] == r);
        }
    }
    assert(is_path(objs, q));
    assert(q[0] == p[0]);
}

/// The marking invariant: everything held or pending is reachable, the
/// roots are held or pending, and the references of held objects are held
/// or pending.
#[verifier::opaque]
pub open spec fn marking_inv(objs: Map<u64, ObjView>, roots: Seq<u64>, work: Seq<u64>, marked: Set<u64>) -> bool {
    &&& forall|y: u64| #[trigger] marked.contains(y) ==> reachable(objs, roots, y)
    &&& forall|i: int| 0 <= i < work.len() ==> reachable(objs, roots, #[trigger] work[i])
    &&& forall|r: u64| roots.contains(r) ==> marked.contains(r) || work.contains(r)
    &&& forall|m: u64, r: u64| marked.contains(m) && #[trigger] edge(objs, m, r) ==> marked.contains(r) || work.contains(r)
}

/// The references of `x` (none when it does not exist).
pub open spec fn refs_of(objs: Map<u64, ObjView>, x: u64) -> Seq<u64> {
    if objs.contains_key(x) { objs[x].refs } else { Seq::empty() }
}

/// One marking step keeps the invariant: the last pending id is taken,
/// and if it was not held it becomes held and its references pending.
pub proof fn lemma_marking_step(objs: Map<u64, ObjView>, roots: Seq<u64>, w0: Seq<u64>, m0: Set<u64>, w1: Seq<u64>, m1: Set<u64>)
    requires
        marking_inv(objs, roots, w0, m0),
        w0.len() > 0,
        m0.contains(w0.last()) ==> m1 == m0 && w1 == w0.drop_last(),
        !m0.contains(w0.last()) ==> m1 == m0.insert(w0.last()) && w1 == w0.drop_last() + refs_of(objs, w0.last()),
    ensures
        marking_inv(objs, roots, w1, m1),
{
    reveal(marking_inv);
    let x = w0.last();
    assert(reachable(objs, roots, x)) by {
        assert(w0[w0.len() - 1] == x);
    }
    let d = w0.drop_last();
    assert forall|r: u64| w0.contains(r) && r != x implies d.contains(r) by {
        let a = choose|a: int| 0 <= a < w0.len() && w0[a] == r;
        assert(a < w0.len() - 1);
        assert(d[a] == r);
    }
    assert forall|r: u64| d.contains(r) implies w1.contains(r) by {
        let a = choose|a: int| 0 <= a < d.len() && d[a] == r;
        assert(w1[a] == r);
    }
    if !m0.contains(x) {
        let rs = refs_of(objs, x);
        assert forall|r: u64| edge(objs, x, r) implies w1.contains(r) by {
            let a = choose|a: int| 0 <= a < rs.len() && rs[a] == r;
            assert(w1[d.len() + a] == r);
        }
        assert forall|i: int| 0 <= i < w1.len() implies reachable(objs, roots, #[trigger] w1[i]) by {
            if i < d.len() {
                assert(w1[i] == w0[i]);
            } else {
                let r = rs[i - d.len()];
                assert(w1[i] == r);
                assert(objs[x].refs.contains(r));
                lemma_reach_step(objs, roots, x, r);
            }
        }
    } else {
        assert forall|i: int| 0 <= i < w1.len() implies reachable(objs, roots, #[trigger] w1[i]) by {
            assert(w1[i] == w0[i]);
        }
    }
}

/// Marking starts with nothing held and the roots pending.
pub proof fn lemma_marking_start(objs: Map<u64, ObjView>, roots: Seq<u64>)
    ensures
        marking_inv(objs, roots, roots, Set::<u64>::empty()),
{
    reveal(marking_inv);
    assert forall|i: int| 0 <= i < roots.len() implies reachable(objs, roots, #[trigger] roots[i]) by {
        let p = seq![roots[i]];
        assert(is_path(objs, p));
        assert(roots.contains(p[0]));
    }
}

/// With nothing pending, the held ids are exactly the reachable ones.
pub proof fn lemma_marking_done(objs: Map<u64, ObjView>, roots: Seq<u64>, marked: Set<u64>)
    requires
        marking_inv(objs, roots, Seq::<u64>::empty(), marked),
    ensures
        forall|x: u64| #[trigger] marked.contains(x) <==> reachable(objs, roots, x),
{
    reveal(marking_inv);
    assert forall|x: u64| #[trigger] marked.contains(x) <==> reachable(objs, roots, x) by {
        if reachable(objs, roots, x) {
            lemma_closed_holds_reachable(objs, roots, marked, x);
        }
    }
}

fn push_all(work: &mut Vec<u64>, refs: &Vec<u64>)
    ensures
        final(work)@ == old(work)@ + refs@,
{
    let mut j: usize = 0;
    while j < refs.len()
        invariant
            j <= refs@.len(),
            work@ == old(work)@ + refs@.take(j as int),
        decreases refs@.len() - j,
    {
        work.push(refs[j]);
        assert(work@ =~= old(work)@ + refs@.take(j + 1));
        j = j + 1;
    }
    assert(refs@.take(refs@.len() as int) =~= refs@);
}

impl GarbageCollector {
    /// Marks exactly the ids reachable from the roots.
    fn mark_reachable(&mut self)
        ensures
            forall|x: u64| #[trigger] final(self).marked@.contains(x) <==> reachable(old(self).objs(), old(self).roots@, x),
            final(self).objects == old(self).objects,
            final(self).roots == old(self).roots,
            final(self).next_id == old(self).next_id,
    {
        let ghost objs = self.objs();
        let ghost roots = self.roots@;
        let ks = self.keys();
        self.marked.clear();
        let mut work: Vec<u64> = self.roots.clone();
        assert(self.marked@ =~= Set::<u64>::empty());
        proof {
            lemma_marking_start(objs, roots);
        }
        while work.len() > 0
            invariant
                objs == self.objs(),
                roots == self.roots@,
                self.objects == old(self).objects,
                self.roots == old(self).roots,
                self.next_id == old(self).next_id,
                lists_keys(ks@, objs),
                marking_inv(objs, roots, work@, self.marked@),
            decreases work@.len() + unmarked_refs(objs, ks@, self.marked@),
        {
            let ghost w0 = work@;
            let ghost m0 = self.marked@;
            let x = match work.pop() {
                Some(x) => x,
                None => {
                    assert(false);
                    return;
                },
            };
            proof {
                lemma_unmarked_refs_mark(objs, ks@, m0, x);
            }
            if !self.marked.contains(&x) {
                self.marked.insert(x);
                match self.objects.get(&x) {
                    Some(o) => {
                        assert(objs.contains_key(x) && objs[x] == o@);
                        let refs = o.refs.clone();
                        push_all(&mut work, &refs);
                    },
                    None => {
                        assert(!objs.contains_key(x));
                        assert(work@ =~= w0.drop_last() + refs_of(objs, x));
                    },
                }
            }
            proof {
                lemma_marking_step(objs, roots, w0, m0, work@, self.marked@);
            }
        }
        proof {
            assert(work@ =~= Seq::<u64>::empty());
            lemma_marking_done(objs, roots, self.marked@);
        }
    }
}

} // verus!

verus! {

/// A prefix's total size is at most the whole total.
pub proof fn lemma_size_total_prefix(objs: Map<u64, ObjView>, ks: Seq<u64>, n: int)
    requires
        0 <= n <= ks.len(),
    ensures
        size_total(objs, ks.take(n)) <= size_total(objs, ks),
    decreases ks.len(),
{
    if n < ks.len() {
        assert(ks.drop_last().take(n) =~= ks.take(n));
        lemma_size_total_prefix(objs, ks.drop_last(), n);
    } else {
        assert(ks.take(n) =~= ks);
    }
}

impl GarbageCollector {
    /// Frees every object not reachable from the roots and returns the
    /// total size freed: the heap total falls by exactly that much, and
    /// every object left is reachable, so collecting again at once frees
    /// nothing. Requires the total heap size to fit in `usize`.
    pub fn collect(&mut self) -> (freed: usize)
        requires
            old(self).wf(),
            forall|ks: Seq<u64>| lists_keys(ks, old(self).objs()) ==> size_total(old(self).objs(), ks) <= usize::MAX,
        ensures
            final(self).wf(),
            final(self).objs() == survivors(old(self).objs(), old(self).root_list()),
            exists|ks: Seq<u64>| {
                &&& ks.no_duplicates()
                &&& forall|k: u64| ks.contains(k) <==> (old(self).objs().contains_key(k)
                    && !reachable(old(self).objs(), old(self).root_list(), k))
                &&& freed == size_total(old(self).objs(), ks)
            },
            final(self).root_list() == old(self).root_list(),
            final(self).next() == old(self).next(),
            forall|k: u64| #[trigger] final(self).objs().contains_key(k) ==> reachable(final(self).objs(), final(self).root_list(), k),
            forall|before: Seq<u64>, after: Seq<u64>| lists_keys(before, old(self).objs()) && lists_keys(after, final(self).objs())
                ==> #[trigger] size_total(old(self).objs(), before) == #[trigger] size_total(final(self).objs(), after) + freed,
    {
        let ghost objs = self.objs();
        let ghost roots = self.roots@;
        self.mark_reachable();
        let ks = self.keys();
        let mut freed: usize = 0;
        let ghost mut removed: Seq<u64> = Seq::empty();
        let mut i: usize = 0;
        while i < ks.len()
            invariant
                lists_keys(ks@, objs),
                i <= ks@.len(),
                forall|x: u64| #[trigger] self.marked@.contains(x) <==> reachable(objs, roots, x),
                forall|k: u64| #[trigger] objs.contains_key(k) ==> objs[k].id == k,
                forall|k: u64| #[trigger] self.objs().contains_key(k) <==>
                    (objs.contains_key(k) && (reachable(objs, roots, k) || !ks@.take(i as int).contains(k))),
                forall|k: u64| #[trigger] self.objs().contains_key(k) ==> self.objs()[k] == objs[k],
                removed.no_duplicates(),
                forall|k: u64| #[trigger] removed.contains(k) <==> (ks@.take(i as int).contains(k) && !reachable(objs, roots, k)),
                freed == size_total(objs, removed),
                freed <= size_total(objs, ks@.take(i as int)),
                size_total(objs, ks@) <= usize::MAX,
                self.roots == old(self).roots,
                self.next_id == old(self).next_id,
            decreases ks@.len() - i,
        {
            let k = ks[i];
            let ghost s0 = ks@.take(i as int);
            let ghost pre = self.objs();
            proof {
                assert(ks@.take(i + 1) =~= s0.push(k));
                assert(ks@.contains(k));
                assert(!s0.contains(k)) by {
                    if s0.contains(k) {
                        let a = choose|a: int| #![trigger s0[a]] 0 <= a < s0.len() && s0[a] == k;
                        assert(ks@[a] == ks@[i as int]);
                    }
                }
                assert forall|x: u64| #[trigger] s0.push(k).contains(x) <==> (s0.contains(x) || x == k) by {
                    if s0.push(k).contains(x) {
                        let a = choose|a: int| #![trigger s0.push(k)[a]] 0 <= a < s0.len() + 1 && s0.push(k)[a] == x;
                        if a < s0.len() {
                            assert(s0[a] == x);
                        }
                    }
                    if s0.contains(x) {
                        let a = choose|a: int| #![trigger s0[a]] 0 <= a < s0.len() && s0[a] == x;
                        assert(s0.push(k)[a] == x);
                    }
                    if x == k {
                        assert(s0.push(k)[s0.len() as int] == x);
                    }
                }
                assert(objs.contains_key(k));
                assert(pre.contains_key(k));
                lemma_size_total_prefix(objs, ks@, i + 1);
                assert(ks@.take(i + 1).drop_last() =~= s0);
            }
            let id = match self.objects.get(&k) {
                Some(o) => o.id,
                None => {
                    assert(false);
                    0
                },
            };
            assert(id == k);
            if !self.marked.contains(&id) {
                let size = match self.objects.remove(&k) {
                    Some(o) => o.size,
                    None => 0,
                };
                assert(size == objs[k].size);
                freed = freed + size;
                proof {
                    assert(self.objs() =~= pre.remove(k));
                    assert(removed.push(k).drop_last() =~= removed);
                    assert forall|a: int, b: int| 0 <= a < b < removed.push(k).len() implies removed.push(k)[a] != removed.push(k)[b] by {
                        if b == removed.len() {
                            assert(removed.contains(removed[a]));
                        }
                    }
                    assert forall|x: u64| #[trigger] removed.push(k).contains(x) <==> (removed.contains(x) || x == k) by {
                        if removed.push(k).contains(x) {
                            let a = choose|a: int| #![trigger removed.push(k)[a]] 0 <= a < removed.len() + 1 && removed.push(k)[a] == x;
                            if a < removed.len() {
                                assert(removed[a] == x);
                            }
                        }
                        if removed.contains(x) {
                            let a = choose|a: int| #![trigger removed[a]] 0 <= a < removed.len() && removed[a] == x;
                            assert(removed.push(k)[a] == x);
                        }
                        if x == k {
                            assert(removed.push(k)[removed.len() as int] == x);
                        }
                    }
                    removed = removed.push(k);
                }
            }
            i = i + 1;
        }
        proof {
            assert(ks@.take(ks@.len() as int) =~= ks@);
            assert(self.objs() =~= survivors(objs, roots)) by {
                assert forall|k: u64| #[trigger] self.objs().contains_key(k) <==> survivors(objs, roots).contains_key(k) by {
                    if objs.contains_key(k) {
                        assert(ks@.contains(k));
                    }
                }
            }
            assert forall|k: u64| #[trigger] self.objs().contains_key(k) implies self.objs()[k].id == k by {}
            assert forall|k: u64| removed.contains(k) <==> (objs.contains_key(k) && !reachable(objs, roots, k)) by {}
            lemma_collect_idempotent(objs, roots);
            assert forall|before: Seq<u64>, after: Seq<u64>| lists_keys(before, objs) && lists_keys(after, self.objs())
                implies #[trigger] size_total(objs, before) == #[trigger] size_total(self.objs(), after) + freed by {
                lemma_collect_accounts(objs, roots, before, after, removed);
            }
        }
        freed
    }

    /// The total size of the objects. Requires it to fit in `usize`.
    pub fn heap_size(&self) -> (n: usize)
        requires
            forall|ks: Seq<u64>| lists_keys(ks, self.objs()) ==> size_total(self.objs(), ks) <= usize::MAX,
        ensures
            exists|ks: Seq<u64>| lists_keys(ks, self.objs()) && n == size_total(self.objs(), ks),
    {
        let ks = self.keys();
        let ghost h = self.objs();
        let mut total: usize = 0;
        let mut i: usize = 0;
        while i < ks.len()
            invariant
                h == self.objs(),
                lists_keys(ks@, h),
                i <= ks@.len(),
                total == size_total(h, ks@.take(i as int)),
                size_total(h, ks@) <= usize::MAX,
            decreases ks@.len() - i,
        {
            let k = ks[i];
            proof {
                assert(ks@.take(i + 1).drop_last() =~= ks@.take(i as int));
                lemma_size_total_prefix(h, ks@, i + 1);
                assert(h.contains_key(k)) by {
                    assert(ks@.contains(k));
                }
            }
            let size = match self.objects.get(&k) {
                Some(o) => o.size,
                None => 0,
            };
            total = total + size;
            i = i + 1;
        }
        assert(ks@.take(ks@.len() as int) =~= ks@);
        total
    }
}

impl Default for GarbageCollector {
    fn default() -> (g: Self)
        ensures
            g.wf(),
            g.objs() == Map::<u64, ObjView>::empty(),
            g.root_list() == Seq::<u64>::empty(),
            g.next() == 1,
    {
        Self::new()
    }
}

} // verus!

verus! {

/// Every object on a path from a root is reachable, so the path survives.
proof fn lemma_path_survives(objs: Map<u64, ObjView>, roots: Seq<u64>, p: Seq<u64>)
    requires
        is_path(objs, p),
        roots.contains(p[0]),
    ensures
        is_path(survivors(objs, roots), p),
{
    let s = survivors(objs, roots);
    assert forall|i: int| 0 <= i < p.len() - 1 implies #[trigger] edge(s, p[i], p[i + 1]) by {
        let q = p.take(i + 1);
        assert forall|j: int| 0 <= j < q.len() - 1 implies #[trigger] edge(objs, q[j], q[j + 1]) by {
            assert(edge(objs, p[j], p[j + 1]));
        }
        assert(is_path(objs, q) && roots.contains(q[0]) && q.last() == p[i]);
        assert(reachable(objs, roots, p[i]));
        assert(edge(objs, p[i], p[i + 1]));
        assert(s.contains_key(p[i]));
    }
}

/// A path among the survivors is a path of the whole heap.
proof fn lemma_survivor_path(objs: Map<u64, ObjView>, roots: Seq<u64>, p: Seq<u64>)
    requires
        is_path(survivors(objs, roots), p),
    ensures
        is_path(objs, p),
{
    let s = survivors(objs, roots);
    assert forall|i: int| 0 <= i < p.len() - 1 implies #[trigger] edge(objs, p[i], p[i + 1]) by {
        assert(edge(s, p[i], p[i + 1]));
    }
}

/// Law: collecting twice frees nothing the second time. The survivors of a
/// collection are exactly what is reachable among them, so collecting them
/// again keeps them all.
pub proof fn lemma_collect_idempotent(objs: Map<u64, ObjView>, roots: Seq<u64>)
    ensures
        forall|x: u64| #[trigger] reachable(survivors(objs, roots), roots, x) <==> reachable(objs, roots, x),
        survivors(survivors(objs, roots), roots) == survivors(objs, roots),
{
    let s = survivors(objs, roots);
    assert forall|x: u64| #[trigger] reachable(s, roots, x) <==> reachable(objs, roots, x) by {
        if reachable(objs, roots, x) {
            let p = choose|p: Seq<u64>| #[trigger] is_path(objs, p) && roots.contains(p[0]) && p.last() == x;
            lemma_path_survives(objs, roots, p);
        }
        if reachable(s, roots, x) {
            let p = choose|p: Seq<u64>| #[trigger] is_path(s, p) && roots.contains(p[0]) && p.last() == x;
            lemma_survivor_path(objs, roots, p);
        }
    }
    assert(survivors(s, roots) =~= s);
}

/// Law: a second collection right after a first frees nothing: no survivor
/// is unreachable, so every list of what it would free is empty.
pub proof fn lemma_second_collect_frees_nothing(objs: Map<u64, ObjView>, roots: Seq<u64>, ks: Seq<u64>)
    requires
        forall|k: u64| ks.contains(k) <==> (survivors(objs, roots).contains_key(k)
            && !reachable(survivors(objs, roots), roots, k)),
    ensures
        ks.len() == 0,
        size_total(survivors(objs, roots), ks) == 0,
{
    lemma_collect_idempotent(objs, roots);
    if ks.len() > 0 {
        assert(ks.contains(ks[0]));
    }
}

/// Removing one listed key takes its size out of the total.
proof fn lemma_size_total_remove(objs: Map<u64, ObjView>, ks: Seq<u64>, i: int)
    requires
        0 <= i < ks.len(),
    ensures
        size_total(objs, ks) == size_total(objs, ks.remove(i)) + objs[ks[i]].size as nat,
    decreases ks.len(),
{
    if i < ks.len() - 1 {
        assert(ks.remove(i).drop_last() =~= ks.drop_last().remove(i));
        assert(ks.remove(i).last() == ks.last());
        lemma_size_total_remove(objs, ks.drop_last(), i);
    } else {
        assert(ks.remove(i) =~= ks.drop_last());
    }
}

/// Removing an entry from a list without duplicates removes that key alone.
proof fn lemma_remove_unique(ks: Seq<u64>, i: int)
    requires
        ks.no_duplicates(),
        0 <= i < ks.len(),
    ensures
        ks.remove(i).no_duplicates(),
        forall|k: u64| ks.remove(i).contains(k) <==> (ks.contains(k) && k != ks[i]),
{
    let r = ks.remove(i);
    assert forall|a: int, b: int| 0 <= a < r.len() && 0 <= b < r.len() && a != b implies r[a] != r[b] by {
        let a0 = if a < i { a } else { a + 1 };
        let b0 = if b < i { b } else { b + 1 };
        assert(r[a] == ks[a0] && r[b] == ks[b0]);
    }
    assert forall|k: u64| r.contains(k) <==> (ks.contains(k) && k != ks[i]) by {
        if r.contains(k) {
            let a = choose|a: int| 0 <= a < r.len() && r[a] == k;
            let a0 = if a < i { a } else { a + 1 };
            assert(ks[a0] == k);
        }
        if ks.contains(k) && k != ks[i] {
            let a0 = choose|a0: int| 0 <= a0 < ks.len() && ks[a0] == k;
            let a = if a0 < i { a0 } else { a0 - 1 };
            assert(r[a] == k);
        }
    }
}

/// The total over a list of keys is the sum of the totals over two lists
/// that split its keys between them.
proof fn lemma_size_total_split(objs: Map<u64, ObjView>, ks: Seq<u64>, la: Seq<u64>, lb: Seq<u64>)
    requires
        ks.no_duplicates(),
        la.no_duplicates(),
        lb.no_duplicates(),
        forall|k: u64| ks.contains(k) <==> (la.contains(k) || lb.contains(k)),
        forall|k: u64| !(la.contains(k) && lb.contains(k)),
    ensures
        size_total(objs, ks) == size_total(objs, la) + size_total(objs, lb),
    decreases ks.len(),
{
    if ks.len() == 0 {
        if la.len() > 0 {
            assert(la.contains(la[0]));
        }
        if lb.len() > 0 {
            assert(lb.contains(lb[0]));
        }
    } else {
        let x = ks.last();
        let rest = ks.drop_last();
        lemma_remove_unique(ks, ks.len() - 1);
        assert(ks.remove(ks.len() - 1) =~= rest);
        assert(ks.contains(x));
        if la.contains(x) {
            let i = choose|i: int| 0 <= i < la.len() && la[i] == x;
            lemma_size_total_remove(objs, la, i);
            lemma_remove_unique(la, i);
            assert forall|k: u64| rest.contains(k) <==> (la.remove(i).contains(k) || lb.contains(k)) by {
                assert(ks.remove(ks.len() - 1).contains(k) <==> (ks.contains(k) && k != x));
                assert(la.remove(i).contains(k) <==> (la.contains(k) && k != x));
                if k == x {
                    assert(!lb.contains(k));
                }
            }
            lemma_size_total_split(objs, rest, la.remove(i), lb);
        } else {
            let i = choose|i: int| 0 <= i < lb.len() && lb[i] == x;
            lemma_size_total_remove(objs, lb, i);
            lemma_remove_unique(lb, i);
            assert forall|k: u64| rest.contains(k) <==> (la.contains(k) || lb.remove(i).contains(k)) by {
                assert(ks.remove(ks.len() - 1).contains(k) <==> (ks.contains(k) && k != x));
                assert(lb.remove(i).contains(k) <==> (lb.contains(k) && k != x));
            }
            lemma_size_total_split(objs, rest, la, lb.remove(i));
        }
    }
}

/// Totals agree over keys on which two heaps hold the same sizes.
proof fn lemma_size_total_agree(a: Map<u64, ObjView>, b: Map<u64, ObjView>, ks: Seq<u64>)
    requires
        forall|k: u64| ks.contains(k) ==> a[k].size == b[k].size,
    ensures
        size_total(a, ks) == size_total(b, ks),
    decreases ks.len(),
{
    if ks.len() > 0 {
        assert(ks.contains(ks.last()));
        assert forall|k: u64| ks.drop_last().contains(k) implies a[k].size == b[k].size by {
            let j = choose|j: int| 0 <= j < ks.drop_last().len() && ks.drop_last()[j] == k;
            assert(ks[j] == k);
            assert(ks.contains(k));
        }
        lemma_size_total_agree(a, b, ks.drop_last());
    }
}

/// Law: a collection lowers the heap total by exactly what it frees: the
/// total before is the total of the survivors plus the total freed.
pub proof fn lemma_collect_accounts(
    objs: Map<u64, ObjView>,
    roots: Seq<u64>,
    before: Seq<u64>,
    after: Seq<u64>,
    freed: Seq<u64>,
)
    requires
        lists_keys(before, objs),
        lists_keys(after, survivors(objs, roots)),
        freed.no_duplicates(),
        forall|k: u64| freed.contains(k) <==> (objs.contains_key(k) && !reachable(objs, roots, k)),
    ensures
        size_total(objs, before) == size_total(survivors(objs, roots), after) + size_total(objs, freed),
{
    let s = survivors(objs, roots);
    assert forall|k: u64| before.contains(k) <==> (after.contains(k) || freed.contains(k)) by {
        if before.contains(k) {
            assert(objs.contains_key(k));
        }
    }
    lemma_size_total_split(objs, before, after, freed);
    assert forall|k: u64| after.contains(k) implies s[k].size == objs[k].size by {
        assert(s.contains_key(k));
    }
    lemma_size_total_agree(s, objs, after);
}

} // verus!
