//! JIT specialisation: type feedback at polymorphic call sites, execution
//! profiles of paths, and the decisions and texts for specialising,
//! inlining and compiling hot code.

use vstd::prelude::*;
use std::collections::HashMap;
use vstd::std_specs::hash::spec_hash_map_iter;
use vstd::std_specs::iter::IteratorSpec;
use crate::text::{dec, fixed2, hex_num, hundredths, push_decimal, push_hex_u64, push_ratio_2dp, str_eq, string_of};

verus! {

broadcast use {vstd::std_specs::hash::group_hash_axioms, vstd::seq_lib::group_to_multiset_ensures};

/// Observed types at one call site and how often each was seen.
#[derive(Debug)]
pub struct TypeFeedback {
    pub site_id: u32,
    pub observed_types: Vec<String>,
    pub frequency: Vec<u32>,
    pub total_hits: u32,
}

/// Type feedback with the type names as character sequences.
pub struct FeedbackView {
    pub site_id: u32,
    pub observed_types: Seq<Seq<char>>,
    pub frequency: Seq<u32>,
    pub total_hits: u32,
}

impl View for TypeFeedback {
    type V = FeedbackView;

    open spec fn view(&self) -> FeedbackView {
        FeedbackView {
            site_id: self.site_id,
            observed_types: self.observed_types@.map_values(|s: String| s@),
            frequency: self.frequency@,
            total_hits: self.total_hits,
        }
    }
}

impl FeedbackView {
    /// One frequency per observed type, none above the total.
    pub open spec fn wf(&self) -> bool {
        &&& self.observed_types.len() == self.frequency.len()
        &&& forall|i: int| 0 <= i < self.frequency.len() ==> #[trigger] self.frequency[i] <= self.total_hits
    }

    /// The position of the dominant type: a most frequent one, the last
    /// such when several tie.
    pub open spec fn is_dominant(&self, i: int) -> bool {
        &&& 0 <= i < self.frequency.len()
        &&& forall|j: int| 0 <= j < self.frequency.len() ==> #[trigger] self.frequency[j] <= self.frequency[i]
        &&& forall|j: int| i < j < self.frequency.len() ==> #[trigger] self.frequency[j] < self.frequency[i]
    }
}

/// `after` is `before` with one more observation of `ty`: the first entry
/// for `ty` is counted once more, or `ty` is added with count 1.
pub open spec fn recorded(before: FeedbackView, after: FeedbackView, ty: Seq<char>) -> bool {
    &&& after.site_id == before.site_id
    &&& after.total_hits == before.total_hits + 1
    &&& if exists|i: int| 0 <= i < before.observed_types.len() && before.observed_types[i] == ty {
        exists|i: int| 0 <= i < before.observed_types.len() && before.observed_types[i] == ty
            && (forall|j: int| 0 <= j < i ==> before.observed_types[j] != ty)
            && after.frequency == before.frequency.update(i, (before.frequency[i] + 1) as u32)
            && after.observed_types == before.observed_types
    } else {
        after.observed_types == before.observed_types.push(ty) && after.frequency == before.frequency.push(1)
    }
}

/// The feedback of `site_id`, or empty feedback for it when it has none.
pub open spec fn feedback_or_new(m: Map<u32, FeedbackView>, site_id: u32) -> FeedbackView {
    if m.contains_key(site_id) {
        m[site_id]
    } else {
        FeedbackView { site_id, observed_types: Seq::empty(), frequency: Seq::empty(), total_hits: 0 }
    }
}

impl Clone for TypeFeedback {
    fn clone(&self) -> (r: Self)
        ensures
            r@ == self@,
    {
        let mut types: Vec<String> = Vec::new();
        let mut i: usize = 0;
        while i < self.observed_types.len()
            invariant
                i <= self.observed_types@.len(),
                types@.len() == i,
                forall|j: int| 0 <= j < i ==> #[trigger] types@[j]@ == self.observed_types@[j]@,
            decreases self.observed_types@.len() - i,
        {
            types.push(self.observed_types[i].clone());
            i = i + 1;
        }
        let r = TypeFeedback {
            site_id: self.site_id,
            observed_types: types,
            frequency: self.frequency.clone(),
            total_hits: self.total_hits,
        };
        assert(r@.observed_types =~= self@.observed_types);
        r
    }
}

impl TypeFeedback {
    /// Feedback for a site with nothing observed.
    pub fn new(site_id: u32) -> (f: Self)
        ensures
            f@ == (FeedbackView { site_id, observed_types: Seq::empty(), frequency: Seq::empty(), total_hits: 0 }),
    {
        let f = TypeFeedback { site_id, observed_types: Vec::new(), frequency: Vec::new(), total_hits: 0 };
        assert(f@.observed_types =~= Seq::<Seq<char>>::empty());
        f
    }

    /// Counts one observation of type `ty`.
    pub fn record_type(&mut self, ty: &str)
        requires
            old(self)@.wf(),
            old(self).total_hits < u32::MAX,
        ensures
            final(self)@.wf(),
            recorded(old(self)@, final(self)@, ty@),
    {
        let ghost o = self@;
        let mut i: usize = 0;
        let mut found = false;
        while i < self.observed_types.len() && !found
            invariant
                self@ == o,
                i <= self.observed_types@.len(),
                forall|j: int| 0 <= j < i ==> o.observed_types[j] != ty@,
                found ==> i < self.observed_types@.len() && o.observed_types[i as int] == ty@,
            decreases self.observed_types@.len() - i + if found { 0int } else { 1int },
        {
            if str_eq(self.observed_types[i].as_str(), ty) {
                found = true;
            } else {
                i = i + 1;
            }
        }
        if found {
            let f = self.frequency[i] + 1;
            self.frequency.set(i, f);
        } else {
            self.observed_types.push(string_of(ty));
            self.frequency.push(1);
            assert(self@.observed_types =~= o.observed_types.push(ty@));
        }
        self.total_hits = self.total_hits + 1;
        proof {
            if !found {
                assert(forall|j: int| 0 <= j < o.observed_types.len() ==> o.observed_types[j] != ty@);
            }
        }
    }

    /// The position of the dominant type, if any type was observed.
    pub fn dominant_index(&self) -> (r: Option<usize>)
        ensures
            match r {
                Some(i) => self@.is_dominant(i as int),
                None => self.frequency@.len() == 0,
            },
    {
        if self.frequency.len() == 0 {
            return None;
        }
        let mut best: usize = 0;
        let mut j: usize = 1;
        while j < self.frequency.len()
            invariant
                1 <= j <= self.frequency@.len(),
                best < j,
                forall|k: int| 0 <= k < j ==> #[trigger] self.frequency@[k] <= self.frequency@[best as int],
                forall|k: int| best < k < j ==> #[trigger] self.frequency@[k] < self.frequency@[best as int],
            decreases self.frequency@.len() - j,
        {
            if self.frequency[j] >= self.frequency[best] {
                best = j;
            }
            j = j + 1;
        }
        Some(best)
    }
}

/// The execution profile of a path.
#[derive(Clone, Copy, Debug)]
pub struct HotPath {
    pub path_id: u32,
    pub instruction_address: u64,
    pub call_count: u32,
    pub execution_time_us: u64,
    pub is_speculative: bool,
}

/// Counters of the specialiser.
#[derive(Clone, Copy, Debug)]
pub struct JitStats {
    pub specializations_generated: u64,
    pub inlining_opportunities: u64,
    pub inlines_performed: u64,
    pub hot_paths_detected: u64,
    pub total_compilation_us: u64,
    pub original_execution_us: u64,
    pub specialized_execution_us: u64,
}

impl Default for JitStats {
    fn default() -> (s: Self)
        ensures
            s.specializations_generated == 0 && s.inlining_opportunities == 0 && s.inlines_performed == 0,
            s.hot_paths_detected == 0 && s.total_compilation_us == 0,
            s.original_execution_us == 0 && s.specialized_execution_us == 0,
    {
        JitStats {
            specializations_generated: 0,
            inlining_opportunities: 0,
            inlines_performed: 0,
            hot_paths_detected: 0,
            total_compilation_us: 0,
            original_execution_us: 0,
            specialized_execution_us: 0,
        }
    }
}

/// Whether the dominant type's share reaches 80% (`f / t >= 0.8`).
pub open spec fn confident_to_specialize(f: u32, t: u32) -> bool {
    5 * f >= 4 * t
}

/// Whether the dominant type's share exceeds 70% (`f / t > 0.7`).
pub open spec fn confident_to_inline(f: u32, t: u32) -> bool {
    10 * f > 7 * t
}

/// The dominant type's share in percent with two decimals; `inf` or `NaN`
/// when no hits were counted.
pub open spec fn percent_text(f: u32, t: u32) -> Seq<char> {
    if t == 0 {
        if f == 0 { "NaN"@ } else { "inf"@ }
    } else {
        fixed2(hundredths(100 * f as nat, t as nat))
    }
}

/// The average execution time per call with two decimals (0 when never
/// called).
pub open spec fn average_text(time_us: u64, calls: u32) -> Seq<char> {
    if calls == 0 {
        fixed2(0)
    } else {
        fixed2(hundredths(time_us as nat, calls as nat))
    }
}

/// The specialised code for a site and its dominant type.
pub open spec fn specialization_text(site_id: u32, ty: Seq<char>, f: u32, t: u32) -> Seq<char> {
    "\n// Specialized code for site "@ + dec(site_id as nat) + ": "@ + ty
        + "\ninline fn specialized_"@ + dec(site_id as nat) + "() -> i32 {\n    // Type: "@ + ty
        + "\n    // Confidence: "@ + percent_text(f, t)
        + "%\n    // Optimized for dominant monomorphic case\n    42\n}\n"@
}

/// The inlined body for a site.
pub open spec fn inline_text(site_id: u32, body: Seq<char>) -> Seq<char> {
    "\n// Inlined function at site "@ + dec(site_id as nat) + "\n{\n    "@ + body + "\n}\n"@
}

/// The compilation directive for a hot path.
pub open spec fn directive_text(path_id: u32, p: HotPath, depth: usize) -> Seq<char> {
    "\n#[jit_compile]\n#[address = 0x"@ + hex_num(p.instruction_address as nat)
        + "]\n#[call_count = "@ + dec(p.call_count as nat)
        + "]\n#[avg_time_us = "@ + average_text(p.execution_time_us, p.call_count)
        + "]\n#[depth = "@ + dec(depth as nat)
        + "]\nfn compiled_path_"@ + dec(path_id as nat) + "() { /* compiled */ }\n"@
}

} // verus!

verus! {

/// Collects type feedback and path profiles and turns them into
/// specialisation, inlining and compilation decisions.
pub struct JitSpecializer {
    type_feedback: HashMap<u32, TypeFeedback>,
    hot_paths: HashMap<u32, HotPath>,
    stats: JitStats,
    temperature_threshold: u32,
    specialization_depth: usize,
}

fn push_text(s: &mut String, t: &str)
    ensures
        final(s)@ == old(s)@ + t@,
{
    s.append(t);
}

impl JitSpecializer {
    /// The type feedback per call site.
    pub closed spec fn feedback(&self) -> Map<u32, FeedbackView> {
        self.type_feedback@.map_values(|f: TypeFeedback| f@)
    }

    /// The profile per path.
    pub closed spec fn paths(&self) -> Map<u32, HotPath> {
        self.hot_paths@
    }

    /// The counters.
    pub closed spec fn counters(&self) -> JitStats {
        self.stats
    }

    /// The call count from which a site or path is hot.
    pub closed spec fn threshold(&self) -> u32 {
        self.temperature_threshold
    }

    /// The specialisation depth.
    pub closed spec fn depth(&self) -> usize {
        self.specialization_depth
    }

    /// All feedback is well formed and each path is stored under its id.
    pub open spec fn wf(&self) -> bool {
        &&& forall|k: u32| #[trigger] self.feedback().contains_key(k) ==> self.feedback()[k].wf()
        &&& forall|k: u32| #[trigger] self.paths().contains_key(k) ==> self.paths()[k].path_id == k
    }

    /// A specialiser with no feedback, no profiles and zero counters.
    pub fn new(temperature_threshold: u32, specialization_depth: usize) -> (j: Self)
        ensures
            j.wf(),
            j.feedback() == Map::<u32, FeedbackView>::empty(),
            j.paths() == Map::<u32, HotPath>::empty(),
            j.counters() == (JitStats {
                specializations_generated: 0,
                inlining_opportunities: 0,
                inlines_performed: 0,
                hot_paths_detected: 0,
                total_compilation_us: 0,
                original_execution_us: 0,
                specialized_execution_us: 0,
            }),
            j.threshold() == temperature_threshold,
            j.depth() == specialization_depth,
    {
        let j = JitSpecializer {
            type_feedback: HashMap::new(),
            hot_paths: HashMap::new(),
            stats: JitStats::default(),
            temperature_threshold,
            specialization_depth,
        };
        assert(j.feedback() =~= Map::<u32, FeedbackView>::empty());
        j
    }

    /// Counts one call at `site_id` with `observed_type`; a call that brings
    /// the site to the threshold or beyond counts as a detected hot path.
    pub fn record_polymorphic_call(&mut self, site_id: u32, observed_type: &str)
        requires
            old(self).wf(),
            old(self).feedback().contains_key(site_id) ==> old(self).feedback()[site_id].total_hits < u32::MAX,
            old(self).counters().hot_paths_detected < u64::MAX,
        ensures
            final(self).wf(),
            final(self).paths() == old(self).paths(),
            final(self).threshold() == old(self).threshold(),
            final(self).depth() == old(self).depth(),
            final(self).feedback().contains_key(site_id),
            final(self).feedback().remove(site_id) == old(self).feedback().remove(site_id),
            recorded(feedback_or_new(old(self).feedback(), site_id), final(self).feedback()[site_id], observed_type@),
            final(self).counters() == (JitStats {
                hot_paths_detected: if final(self).feedback()[site_id].total_hits >= old(self).threshold() {
                    (old(self).counters().hot_paths_detected + 1) as u64
                } else {
                    old(self).counters().hot_paths_detected
                },
                ..old(self).counters()
            }),
    {
        let mut fb = match self.type_feedback.get(&site_id) {
            Some(f) => {
                proof {
                    assert(self.feedback().contains_key(site_id));
                    assert(self.feedback()[site_id] == f@);
                }
                f.clone()
            },
            None => {
                assert(!self.feedback().contains_key(site_id));
                TypeFeedback::new(site_id)
            },
        };
        let ghost b = fb@;
        assert(b == feedback_or_new(old(self).feedback(), site_id));
        fb.record_type(observed_type);
        let total = fb.total_hits;
        let ghost after = fb@;
        self.type_feedback.insert(site_id, fb);
        proof {
            assert(self.feedback() =~= old(self).feedback().insert(site_id, after));
            assert(self.feedback().remove(site_id) =~= old(self).feedback().remove(site_id));
            assert forall|k: u32| #[trigger] self.feedback().contains_key(k) implies self.feedback()[k].wf() by {
                if k != site_id {
                    assert(old(self).feedback().contains_key(k));
                }
            }
        }
        if total >= self.temperature_threshold {
            self.stats.hot_paths_detected = self.stats.hot_paths_detected + 1;
        }
        proof {
            assert(self.feedback() =~= old(self).feedback().insert(site_id, after));
            assert(self.paths() == old(self).paths());
        }
    }

    /// Adds one execution of `path_id` taking `time_us`; a path seen for the
    /// first time starts at address `addr`.
    pub fn record_execution(&mut self, path_id: u32, addr: u64, time_us: u64)
        requires
            old(self).wf(),
            old(self).paths().contains_key(path_id) ==> old(self).paths()[path_id].call_count < u32::MAX
                && old(self).paths()[path_id].execution_time_us + time_us <= u64::MAX,
        ensures
            final(self).wf(),
            final(self).feedback() == old(self).feedback(),
            final(self).counters() == old(self).counters(),
            final(self).threshold() == old(self).threshold(),
            final(self).depth() == old(self).depth(),
            ({
                let before = if old(self).paths().contains_key(path_id) {
                    old(self).paths()[path_id]
                } else {
                    HotPath { path_id, instruction_address: addr, call_count: 0, execution_time_us: 0, is_speculative: false }
                };
                final(self).paths() == old(self).paths().insert(path_id, HotPath {
                    call_count: (before.call_count + 1) as u32,
                    execution_time_us: (before.execution_time_us + time_us) as u64,
                    is_speculative: if before.call_count + 1 >= old(self).threshold() { false } else { before.is_speculative },
                    ..before
                })
            }),
    {
        let mut path = match self.hot_paths.get(&path_id) {
            Some(p) => {
                assert(self.paths().contains_key(path_id));
                *p
            },
            None => HotPath { path_id, instruction_address: addr, call_count: 0, execution_time_us: 0, is_speculative: false },
        };
        path.call_count = path.call_count + 1;
        path.execution_time_us = path.execution_time_us + time_us;
        if path.call_count >= self.temperature_threshold {
            path.is_speculative = false;
        }
        self.hot_paths.insert(path_id, path);
        proof {
            assert forall|k: u32| #[trigger] self.paths().contains_key(k) implies self.paths()[k].path_id == k by {
                if k != path_id {
                    assert(old(self).paths().contains_key(k));
                }
            }
            assert(self.feedback() == old(self).feedback());
        }
    }

    /// Specialised code for the dominant type at `site_id`, when the site
    /// has feedback and the dominant type reaches an 80% share.
    pub fn specialize_polymorphic_site(&mut self, site_id: u32) -> (r: Option<String>)
        requires
            old(self).wf(),
            old(self).counters().specializations_generated < u64::MAX,
        ensures
            final(self).feedback() == old(self).feedback(),
            final(self).paths() == old(self).paths(),
            final(self).threshold() == old(self).threshold(),
            final(self).depth() == old(self).depth(),
            ({
                let fb = old(self).feedback()[site_id];
                if old(self).feedback().contains_key(site_id) && fb.frequency.len() > 0 {
                    exists|i: int| #[trigger] fb.is_dominant(i) && {
                        let f = fb.frequency[i];
                        if confident_to_specialize(f, fb.total_hits) {
                            &&& r matches Some(s) && s@ == specialization_text(site_id, fb.observed_types[i], f, fb.total_hits)
                            &&& final(self).counters() == (JitStats {
                                    specializations_generated: (old(self).counters().specializations_generated + 1) as u64,
                                    ..old(self).counters()
                                })
                        } else {
                            r is None && final(self).counters() == old(self).counters()
                        }
                    }
                } else {
                    r is None && final(self).counters() == old(self).counters()
                }
            }),
    {
        let fb = match self.type_feedback.get(&site_id) {
            Some(f) => f,
            None => {
                assert(!self.feedback().contains_key(site_id));
                return None;
            },
        };
        proof {
            assert(self.feedback().contains_key(site_id));
            assert(self.feedback()[site_id] == fb@);
            assert(fb@.wf());
        }
        let i = match fb.dominant_index() {
            Some(i) => i,
            None => return None,
        };
        let f = fb.frequency[i];
        let t = fb.total_hits;
        if (f as u64) * 5 < (t as u64) * 4 {
            return None;
        }
        let ty = fb.observed_types[i].as_str();
        let mut s = string_of("\n// Specialized code for site ");
        push_decimal(&mut s, site_id as u64);
        push_text(&mut s, ": ");
        push_text(&mut s, ty);
        push_text(&mut s, "\ninline fn specialized_");
        push_decimal(&mut s, site_id as u64);
        push_text(&mut s, "() -> i32 {\n    // Type: ");
        push_text(&mut s, ty);
        push_text(&mut s, "\n    // Confidence: ");
        let ghost before_pct = s@;
        if t == 0 {
            if f == 0 {
                push_text(&mut s, "NaN");
            } else {
                push_text(&mut s, "inf");
            }
        } else {
            push_ratio_2dp(&mut s, 100 * (f as u64), t as u64);
        }
        assert(s@ == before_pct + percent_text(f, t));
        push_text(&mut s, "%\n    // Optimized for dominant monomorphic case\n    42\n}\n");
        proof {
            assert(fb@.is_dominant(i as int));
            assert(s@ =~= specialization_text(site_id, fb@.observed_types[i as int], f, t));
        }
        self.stats.specializations_generated = self.stats.specializations_generated + 1;
        Some(s)
    }
}

} // verus!

verus! {

/// Whether a site's feedback makes it an inlining opportunity: hot, with a
/// dominant type whose share exceeds 70%.
pub open spec fn inlinable(fb: FeedbackView, threshold: u32) -> bool {
    &&& fb.total_hits >= threshold
    &&& exists|i: int| #[trigger] fb.is_dominant(i) && confident_to_inline(fb.frequency[i], fb.total_hits)
}

/// The paths sorted by total execution time, longest first.
pub open spec fn sorted_by_time(s: Seq<HotPath>) -> bool {
    forall|i: int, j: int| 0 <= i < j < s.len() ==> #[trigger] s[i].execution_time_us >= #[trigger] s[j].execution_time_us
}

fn insert_by_time(out: &mut Vec<HotPath>, p: HotPath)
    requires
        sorted_by_time(old(out)@),
    ensures
        sorted_by_time(final(out)@),
        final(out)@.to_multiset() == old(out)@.to_multiset().insert(p),
        final(out)@.len() == old(out)@.len() + 1,
{
    let mut j: usize = 0;
    while j < out.len() && out[j].execution_time_us >= p.execution_time_us
        invariant
            j <= out@.len(),
            out@ == old(out)@,
            forall|k: int| 0 <= k < j ==> #[trigger] out@[k].execution_time_us >= p.execution_time_us,
        decreases out@.len() - j,
    {
        j = j + 1;
    }
    let ghost before = out@;
    out.insert(j, p);
    proof {
        assert(out@ == before.insert(j as int, p));
        assert forall|a: int, b: int| 0 <= a < b < out@.len()
            implies #[trigger] out@[a].execution_time_us >= #[trigger] out@[b].execution_time_us by {
            if b < j {
            } else if b == j {
                assert(out@[a] == before[a]);
            } else if a < j {
                assert(out@[b] == before[b - 1]);
                if j < before.len() {
                    assert(before[j as int].execution_time_us < p.execution_time_us);
                    assert(before[b - 1].execution_time_us <= before[j as int].execution_time_us);
                }
            } else if a == j {
                assert(out@[b] == before[b - 1]);
                assert(before[j as int].execution_time_us < p.execution_time_us);
                assert(before[b - 1].execution_time_us <= before[j as int].execution_time_us);
            } else {
                assert(out@[a] == before[a - 1]);
                assert(out@[b] == before[b - 1]);
            }
        }
    }
}

impl JitSpecializer {
    /// The sites that are inlining opportunities (in the map's own order),
    /// each counted in the statistics.
    pub fn find_inlining_opportunities(&mut self) -> (r: Vec<u32>)
        requires
            old(self).wf(),
            old(self).counters().inlining_opportunities + old(self).feedback().dom().len() <= u64::MAX,
        ensures
            r@.no_duplicates(),
            forall|k: u32| r@.contains(k) <==> (old(self).feedback().contains_key(k)
                && inlinable(old(self).feedback()[k], old(self).threshold())),
            final(self).counters() == (JitStats {
                inlining_opportunities: (old(self).counters().inlining_opportunities + r@.len()) as u64,
                ..old(self).counters()
            }),
            final(self).feedback() == old(self).feedback(),
            final(self).paths() == old(self).paths(),
            final(self).threshold() == old(self).threshold(),
            final(self).depth() == old(self).depth(),
    {
        let ghost m = self.type_feedback@;
        let ghost fm = self.feedback();
        let ghost all = spec_hash_map_iter(&self.type_feedback).remaining();
        let ghost mut n: int = 0;
        let mut found: Vec<u32> = Vec::new();
        let threshold = self.temperature_threshold;
        for pair in it: self.type_feedback.iter()
            invariant
                m == self.type_feedback@,
                fm == self.feedback(),
                threshold == self.temperature_threshold,
                all == it.seq(),
                n == it.index(),
                it.seq().no_duplicates(),
                forall|i: int| #![trigger it.seq()[i]] 0 <= i < it.seq().len() ==> m.contains_key(*it.seq()[i].0) && m[*it.seq()[i].0] == *it.seq()[i].1,
                forall|k: u32| #[trigger] m.contains_key(k) ==> it.seq().contains((&k, &m[k])),
                found@.no_duplicates(),
                found@.len() <= it.index(),
                forall|c: u32| #[trigger] found@.contains(c) <==>
                    (exists|i: int| 0 <= i < it.index() && *it.seq()[i].0 == c && inlinable(it.seq()[i].1@, threshold)),
                forall|k: u32| #[trigger] fm.contains_key(k) ==> fm[k].wf(),
        {
            let (site, fb) = pair;
            let ghost idx = it.index();
            proof {
                n = n + 1;
                assert(m.contains_key(*site));
                assert(fm.contains_key(*site));
                assert(fm[*site] == fb@);
            }
            let ghost old_found = found@;
            let mut take = false;
            if fb.total_hits >= threshold {
                match fb.dominant_index() {
                    Some(i) => {
                        let f = fb.frequency[i] as u64;
                        let t = fb.total_hits as u64;
                        if 10 * f > 7 * t {
                            take = true;
                        } else {
                            proof {
                                assert forall|i2: int| #[trigger] fb@.is_dominant(i2) implies !confident_to_inline(fb@.frequency[i2], fb@.total_hits) by {
                                    assert(fb@.frequency[i2] == fb@.frequency[i as int]);
                                }
                            }
                        }
                    },
                    None => {},
                }
            }
            assert(take == inlinable(fb@, threshold));
            if take {
                proof {
                    if found@.contains(*site) {
                        let i = choose|i: int| 0 <= i < idx && *it.seq()[i].0 == *site && inlinable(it.seq()[i].1@, threshold);
                        assert(it.seq()[i] == it.seq()[idx]);
                    }
                }
                found.push(*site);
            }
            proof {
                assert(it.seq()[idx] == pair);
                assert forall|c: u32| #[trigger] found@.contains(c) implies
                    (exists|i: int| 0 <= i <= idx && *it.seq()[i].0 == c && inlinable(it.seq()[i].1@, threshold)) by {
                    if take && c == *site {
                        assert(*it.seq()[idx].0 == c);
                    } else {
                        assert(old_found.contains(c));
                    }
                }
                assert forall|c: u32| (exists|i: int| 0 <= i <= idx && *it.seq()[i].0 == c && inlinable(it.seq()[i].1@, threshold))
                    implies #[trigger] found@.contains(c) by {
                    let i = choose|i: int| 0 <= i <= idx && *it.seq()[i].0 == c && inlinable(it.seq()[i].1@, threshold);
                    if i == idx {
                        assert(found@.last() == c);
                    } else {
                        assert(old_found.contains(c));
                        let j = choose|j: int| 0 <= j < old_found.len() && old_found[j] == c;
                        assert(found@[j] == c);
                    }
                }
            }
        }
        proof {
            assert forall|k: u32| found@.contains(k) <==> (fm.contains_key(k) && inlinable(fm[k], threshold)) by {
                if fm.contains_key(k) && inlinable(fm[k], threshold) {
                    assert(m.contains_key(k));
                    assert(all.contains((&k, &m[k])));
                    let i = choose|i: int| 0 <= i < all.len() && all[i] == (&k, &m[k]);
                    assert(*all[i].0 == k);
                }
                if found@.contains(k) {
                    let i = choose|i: int| 0 <= i < all.len() && *all[i].0 == k && inlinable(all[i].1@, threshold);
                    assert(m.contains_key(k));
                }
            }
            assert(all.len() == m.dom().len());
            assert(fm.dom() =~= m.dom());
        }
        self.stats.inlining_opportunities = self.stats.inlining_opportunities + found.len() as u64;
        found
    }
}

} // verus!

verus! {

impl JitSpecializer {
    /// Inlined code for `body` at `site_id`, unless the site has feedback
    /// below the threshold.
    pub fn inline_function(&mut self, site_id: u32, body: &str) -> (r: Option<String>)
        requires
            old(self).counters().inlines_performed < u64::MAX,
        ensures
            final(self).feedback() == old(self).feedback(),
            final(self).paths() == old(self).paths(),
            final(self).threshold() == old(self).threshold(),
            final(self).depth() == old(self).depth(),
            if old(self).feedback().contains_key(site_id) && old(self).feedback()[site_id].total_hits < old(self).threshold() {
                r is None && final(self).counters() == old(self).counters()
            } else {
                &&& r matches Some(s) && s@ == inline_text(site_id, body@)
                &&& final(self).counters() == (JitStats {
                        inlines_performed: (old(self).counters().inlines_performed + 1) as u64,
                        ..old(self).counters()
                    })
            },
    {
        match self.type_feedback.get(&site_id) {
            Some(fb) => {
                assert(self.feedback().contains_key(site_id) && self.feedback()[site_id] == fb@);
                if fb.total_hits < self.temperature_threshold {
                    return None;
                }
            },
            None => {
                assert(!self.feedback().contains_key(site_id));
            },
        }
        let mut s = string_of("\n// Inlined function at site ");
        push_decimal(&mut s, site_id as u64);
        push_text(&mut s, "\n{\n    ");
        push_text(&mut s, body);
        push_text(&mut s, "\n}\n");
        assert(s@ =~= inline_text(site_id, body@));
        self.stats.inlines_performed = self.stats.inlines_performed + 1;
        Some(s)
    }

    /// The profiled paths, longest total execution time first.
    pub fn analyze_hot_paths(&self) -> (r: Vec<HotPath>)
        requires
            self.wf(),
        ensures
            sorted_by_time(r@),
            r@.len() == self.paths().dom().len(),
            forall|i: int| 0 <= i < r@.len() ==> self.paths().contains_key(#[trigger] r@[i].path_id)
                && self.paths()[r@[i].path_id] == r@[i],
            forall|k: u32| #[trigger] self.paths().contains_key(k) ==> r@.contains(self.paths()[k]),
    {
        let ghost m = self.hot_paths@;
        let ghost all = spec_hash_map_iter(&self.hot_paths).remaining();
        let ghost mut n: int = 0;
        let ghost mut seen: Seq<HotPath> = Seq::empty();
        let mut out: Vec<HotPath> = Vec::new();
        assert forall|k: u32| #[trigger] m.contains_key(k) implies m[k].path_id == k by {
            assert(self.paths().contains_key(k));
        }
        for pair in it: self.hot_paths.iter()
            invariant
                m == self.hot_paths@,
                all == it.seq(),
                n == it.index(),
                forall|i: int| #![trigger it.seq()[i]] 0 <= i < it.seq().len() ==> m.contains_key(*it.seq()[i].0) && m[*it.seq()[i].0] == *it.seq()[i].1,
                forall|k: u32| #[trigger] m.contains_key(k) ==> m[k].path_id == k,
                seen.len() == it.index(),
                forall|i: int| 0 <= i < seen.len() ==> #[trigger] seen[i] == *it.seq()[i].1,
                sorted_by_time(out@),
                out@.to_multiset() == seen.to_multiset(),
        {
            let (_k, p) = pair;
            proof {
                n = n + 1;
                seen = seen.push(*p);
            }
            insert_by_time(&mut out, *p);
        }
        proof {
            assert(seen.len() == all.len());
            assert(all.len() == m.dom().len());
            assert forall|i: int| 0 <= i < out@.len() implies m.contains_key(#[trigger] out@[i].path_id)
                && m[out@[i].path_id] == out@[i] by {
                assert(out@.to_multiset().count(out@[i]) > 0);
                assert(seen.to_multiset().count(out@[i]) > 0);
                assert(seen.contains(out@[i]));
                let j = choose|j: int| 0 <= j < seen.len() && seen[j] == out@[i];
                assert(seen[j] == *all[j].1);
            }
            assert forall|k: u32| #[trigger] m.contains_key(k) implies out@.contains(m[k]) by {
                assert(all.contains((&k, &m[k])));
                let j = choose|j: int| 0 <= j < all.len() && all[j] == (&k, &m[k]);
                assert(seen[j] == m[k]);
                assert(seen.contains(m[k]));
                assert(seen.to_multiset().count(m[k]) > 0);
                assert(out@.to_multiset().count(m[k]) > 0);
            }
            assert(out@.len() == out@.to_multiset().len());
            assert(seen.len() == seen.to_multiset().len());
        }
        out
    }
}

} // verus!

verus! {

impl JitSpecializer {
    /// The compilation directive for a profiled path that is stable and hot.
    pub fn generate_jit_directive(&mut self, path_id: u32) -> (r: Option<String>)
        ensures
            *final(self) == *old(self),
            if old(self).paths().contains_key(path_id) && !old(self).paths()[path_id].is_speculative
                && old(self).paths()[path_id].call_count >= old(self).threshold() {
                r matches Some(s) && s@ == directive_text(path_id, old(self).paths()[path_id], old(self).depth())
            } else {
                r is None
            },
    {
        let p = match self.hot_paths.get(&path_id) {
            Some(p) => *p,
            None => return None,
        };
        if p.is_speculative || p.call_count < self.temperature_threshold {
            return None;
        }
        let mut s = string_of("\n#[jit_compile]\n#[address = 0x");
        push_hex_u64(&mut s, p.instruction_address);
        push_text(&mut s, "]\n#[call_count = ");
        let ghost pre1 = s@;
        push_decimal(&mut s, p.call_count as u64);
        assert(s@ == pre1 + dec(p.call_count as nat));
        push_text(&mut s, "]\n#[avg_time_us = ");
        let ghost pre = s@;
        if p.call_count == 0 {
            push_ratio_2dp(&mut s, 0, 1);
            assert(hundredths(0, 1) == 0);
        } else {
            push_ratio_2dp(&mut s, p.execution_time_us, p.call_count as u64);
        }
        assert(s@ == pre + average_text(p.execution_time_us, p.call_count));
        push_text(&mut s, "]\n#[depth = ");
        let ghost pre2 = s@;
        push_decimal(&mut s, self.specialization_depth as u64);
        assert(s@ == pre2 + dec(self.specialization_depth as nat));
        push_text(&mut s, "]\nfn compiled_path_");
        let ghost pre3 = s@;
        push_decimal(&mut s, path_id as u64);
        assert(s@ == pre3 + dec(path_id as nat));
        push_text(&mut s, "() { /* compiled */ }\n");
        assert(s@ =~= directive_text(path_id, p, self.specialization_depth));
        Some(s)
    }

    /// The counters.
    pub fn stats(&self) -> (s: &JitStats)
        ensures
            *s == self.counters(),
    {
        &self.stats
    }

    /// Adds execution times measured before and after specialisation.
    pub fn record_original_vs_specialized(&mut self, original_us: u64, specialized_us: u64)
        requires
            old(self).counters().original_execution_us + original_us <= u64::MAX,
            old(self).counters().specialized_execution_us + specialized_us <= u64::MAX,
        ensures
            final(self).counters() == (JitStats {
                original_execution_us: (old(self).counters().original_execution_us + original_us) as u64,
                specialized_execution_us: (old(self).counters().specialized_execution_us + specialized_us) as u64,
                ..old(self).counters()
            }),
            final(self).feedback() == old(self).feedback(),
            final(self).paths() == old(self).paths(),
            final(self).threshold() == old(self).threshold(),
            final(self).depth() == old(self).depth(),
    {
        self.stats.original_execution_us = self.stats.original_execution_us + original_us;
        self.stats.specialized_execution_us = self.stats.specialized_execution_us + specialized_us;
    }

    /// The number of sites with feedback.
    pub fn type_feedback_count(&self) -> (n: usize)
        ensures
            n == self.feedback().dom().len(),
    {
        assert(self.feedback().dom() =~= self.type_feedback@.dom());
        self.type_feedback.len()
    }

    /// The number of profiled paths.
    pub fn hot_path_count(&self) -> (n: usize)
        ensures
            n == self.paths().dom().len(),
    {
        self.hot_paths.len()
    }

    /// Forgets all feedback and profiles (the counters stay).
    pub fn clear(&mut self)
        ensures
            final(self).wf(),
            final(self).feedback() == Map::<u32, FeedbackView>::empty(),
            final(self).paths() == Map::<u32, HotPath>::empty(),
            final(self).counters() == old(self).counters(),
            final(self).threshold() == old(self).threshold(),
            final(self).depth() == old(self).depth(),
    {
        self.type_feedback.clear();
        self.hot_paths.clear();
        assert(self.feedback() =~= Map::<u32, FeedbackView>::empty());
    }
}

impl Default for JitSpecializer {
    fn default() -> (j: Self)
        ensures
            j.wf(),
            j.feedback() == Map::<u32, FeedbackView>::empty(),
            j.paths() == Map::<u32, HotPath>::empty(),
            j.threshold() == 1000,
            j.depth() == 3,
    {
        Self::new(1000, 3)
    }
}

} // verus!
