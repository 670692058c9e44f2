//! Elaboration: the annotated syntax tree that feeds RMIR generation
//! (refined types, region and effect markers, proof obligations) and the
//! context that tracks active regions and their allocations.

use vstd::prelude::*;
use crate::text::{str_eq, str_views};

verus! {

/// A type with an optional refinement, such as `i32{v | v > 0}`.
#[derive(Debug, Clone)]
pub struct RefinedType {
    pub base_type: String,
    pub refinement: Option<String>,
    /// Region constraint, if any.
    pub region: Option<String>,
}

/// A function after elaboration, with its effects and proof obligations.
#[derive(Debug)]
pub struct ElaboratedFunction {
    pub name: String,
    pub parameters: Vec<(String, RefinedType)>,
    pub return_type: RefinedType,
    pub body: Vec<ElaboratedStatement>,
    pub effects: Vec<String>,
    pub proof_obligations: Vec<ProofObligation>,
}

/// A statement of the elaborated syntax tree.
#[derive(Debug)]
pub enum ElaboratedStatement {
    RegionEnter { name: String },
    Allocate { region: String, ptr_name: String, size: usize },
    Deallocate { region: String, ptr_name: String },
    RegionExit { name: String },
    EffectEmit { effect: String, payload: String },
    Consume { value: String },
    Borrow { value: String, borrow_name: String, mode: String, lifetime: String },
    Assert { predicate: String },
}

/// A lemma that the prover must discharge.
#[derive(Debug, Clone)]
pub struct ProofObligation {
    pub id: u32,
    pub kind: String,
    pub description: String,
}

#[derive(Debug)]
struct RegionState {
    status: String,
    allocations: Vec<String>,
}

#[derive(Debug)]
struct ValueState {
    kind: String,
    lifetime: Option<String>,
    region: Option<String>,
}

/// What the context knows of one region: its status and its live
/// allocations, oldest first.
pub struct RegionView {
    pub status: Seq<char>,
    pub allocations: Seq<Seq<char>>,
}

spec fn entry_view(e: (String, RegionState)) -> (Seq<char>, RegionView) {
    (e.0@, RegionView { status: e.1.status@, allocations: str_views(e.1.allocations@) })
}

/// The index of the region named `name`, or -1.
pub open spec fn region_index(rs: Seq<(Seq<char>, RegionView)>, name: Seq<char>) -> int
    decreases rs.len(),
{
    if rs.len() == 0 {
        -1
    } else if rs.last().0 == name {
        rs.len() - 1
    } else {
        region_index(rs.drop_last(), name)
    }
}

/// No two regions share a name.
pub open spec fn names_unique(rs: Seq<(Seq<char>, RegionView)>) -> bool {
    forall|i: int, j: int| 0 <= i < j < rs.len() ==> rs[i].0 != rs[j].0
}

/// A freshly entered region: active, with no allocations.
pub open spec fn fresh_region() -> RegionView {
    RegionView { status: "active"@, allocations: Seq::empty() }
}

/// The message for leaving a region that still holds allocations.
pub open spec fn exit_message(name: Seq<char>) -> Seq<char> {
    "Cannot exit region "@ + name + " with active allocations"@
}

/// The message for allocating in a region that is not active.
pub open spec fn inactive_message(name: Seq<char>) -> Seq<char> {
    "Region "@ + name + " not active"@
}

proof fn lemma_region_index(rs: Seq<(Seq<char>, RegionView)>, name: Seq<char>)
    ensures
        -1 <= region_index(rs, name) < rs.len(),
        region_index(rs, name) >= 0 ==> rs[region_index(rs, name)].0 == name,
        region_index(rs, name) == -1 ==> forall|i: int| 0 <= i < rs.len() ==> rs[i].0 != name,
    decreases rs.len(),
{
    if rs.len() > 0 && rs.last().0 != name {
        lemma_region_index(rs.drop_last(), name);
        let p = rs.drop_last();
        assert forall|i: int| 0 <= i < p.len() implies p[i] == rs[i] by {}
    }
}

/// Tracks the active regions and their allocations, and numbers proof
/// obligations.
#[derive(Debug)]
pub struct ElaborationContext {
    active_regions: Vec<(String, RegionState)>,
    owned_values: Vec<(String, ValueState)>,
    current_effects: Vec<String>,
    proof_counter: u32,
}

impl ElaborationContext {
    /// The active regions, in the order they were first entered.
    pub closed spec fn regions(&self) -> Seq<(Seq<char>, RegionView)> {
        self.active_regions@.map_values(|e: (String, RegionState)| entry_view(e))
    }

    /// The next proof obligation number.
    pub closed spec fn counter(&self) -> nat {
        self.proof_counter as nat
    }

    /// Region names are unique.
    pub open spec fn wf(&self) -> bool {
        names_unique(self.regions())
    }

    /// A context with no regions, numbering obligations from 0.
    pub fn new() -> (c: Self)
        ensures
            c.wf(),
            c.regions() == Seq::<(Seq<char>, RegionView)>::empty(),
            c.counter() == 0,
    {
        let c = ElaborationContext {
            active_regions: Vec::new(),
            owned_values: Vec::new(),
            current_effects: Vec::new(),
            proof_counter: 0,
        };
        assert(c.regions() =~= Seq::<(Seq<char>, RegionView)>::empty());
        c
    }

    fn find(&self, name: &String) -> (r: Option<usize>)
        ensures
            match r {
                Some(i) => region_index(self.regions(), name@) == i as int,
                None => region_index(self.regions(), name@) == -1,
            },
    {
        let ghost rs = self.regions();
        proof {
            lemma_region_index(rs, name@);
        }
        let mut i = self.active_regions.len();
        while i > 0
            invariant
                i <= self.active_regions.len(),
                rs == self.regions(),
                rs.len() == self.active_regions.len(),
                forall|k: int| i <= k < rs.len() ==> rs[k].0 != name@,
            decreases i,
        {
            if str_eq(self.active_regions[i - 1].0.as_str(), name.as_str()) {
                assert(rs[i - 1].0 == name@);
                proof {
                    lemma_last_match(rs, name@, (i - 1) as int);
                }
                return Some(i - 1);
            }
            assert(rs[i - 1].0 != name@);
            i = i - 1;
        }
        None
    }

    /// Enters a region: it becomes active with no allocations, replacing
    /// any earlier state of a region of that name.
    pub fn enter_region(&mut self, name: String)
        requires
            old(self).wf(),
        ensures
            final(self).wf(),
            final(self).counter() == old(self).counter(),
            region_index(old(self).regions(), name@) == -1 ==> final(self).regions()
                == old(self).regions().push((name@, fresh_region())),
            region_index(old(self).regions(), name@) >= 0 ==> final(self).regions()
                == old(self).regions().update(region_index(old(self).regions(), name@), (name@, fresh_region())),
    {
        let ghost rs = self.regions();
        proof {
            lemma_region_index(rs, name@);
        }
        let state = RegionState { status: String::from_str("active"), allocations: Vec::new() };
        assert(str_views(state.allocations@) =~= Seq::<Seq<char>>::empty());
        match self.find(&name) {
            Some(i) => {
                self.active_regions.set(i, (name, state));
                assert(self.regions() =~= rs.update(i as int, (rs[i as int].0, fresh_region())));
            },
            None => {
                self.active_regions.push((name, state));
                assert(self.regions() =~= rs.push((name@, fresh_region())));
            },
        }
    }

    /// Leaves a region. A region that still holds allocations cannot be
    /// left; leaving a region that is not active does nothing.
    pub fn exit_region(&mut self, name: String) -> (r: Result<(), String>)
        requires
            old(self).wf(),
        ensures
            final(self).wf(),
            final(self).counter() == old(self).counter(),
            ({
                let i = region_index(old(self).regions(), name@);
                if i == -1 {
                    r is Ok && final(self).regions() == old(self).regions()
                } else if old(self).regions()[i].1.allocations.len() > 0 {
                    r is Err && r->Err_0@ == exit_message(name@)
                        && final(self).regions() == old(self).regions()
                } else {
                    r is Ok && final(self).regions() == old(self).regions().remove(i)
                }
            }),
    {
        let ghost rs = self.regions();
        proof {
            lemma_region_index(rs, name@);
        }
        match self.find(&name) {
            None => Ok(()),
            Some(i) => {
                if self.active_regions[i].1.allocations.len() > 0 {
                    let mut m = String::from_str("Cannot exit region ");
                    m.append(name.as_str());
                    m.append(" with active allocations");
                    return Err(m);
                }
                self.active_regions.remove(i);
                assert(self.regions() =~= rs.remove(i as int));
                Ok(())
            },
        }
    }

    /// Records an allocation in an active region.
    pub fn allocate(&mut self, region: String, ptr: String, _size: usize) -> (r: Result<(), String>)
        requires
            old(self).wf(),
        ensures
            final(self).wf(),
            final(self).counter() == old(self).counter(),
            ({
                let i = region_index(old(self).regions(), region@);
                if i == -1 {
                    r is Err && r->Err_0@ == inactive_message(region@)
                        && final(self).regions() == old(self).regions()
                } else {
                    let old_r = old(self).regions()[i].1;
                    r is Ok && final(self).regions() == old(self).regions().update(i, (region@,
                        RegionView { status: old_r.status, allocations: old_r.allocations.push(ptr@) }))
                }
            }),
    {
        let ghost rs = self.regions();
        proof {
            lemma_region_index(rs, region@);
        }
        match self.find(&region) {
            None => {
                let mut m = String::from_str("Region ");
                m.append(region.as_str());
                m.append(" not active");
                Err(m)
            },
            Some(i) => {
                let mut entry = self.active_regions.remove(i);
                let ghost before = entry.1.allocations@;
                entry.1.allocations.push(ptr);
                assert(str_views(entry.1.allocations@) =~= str_views(before).push(ptr@));
                self.active_regions.insert(i, entry);
                assert(self.regions() =~= rs.update(i as int, (region@, RegionView {
                    status: rs[i as int].1.status,
                    allocations: rs[i as int].1.allocations.push(ptr@),
                })));
                Ok(())
            },
        }
    }

    /// Hands out the next proof obligation number.
    pub fn next_proof_id(&mut self) -> (id: u32)
        requires
            old(self).counter() < u32::MAX,
        ensures
            id == old(self).counter(),
            final(self).counter() == old(self).counter() + 1,
            final(self).regions() == old(self).regions(),
    {
        let id = self.proof_counter;
        self.proof_counter = self.proof_counter + 1;
        id
    }
}

proof fn lemma_last_match(rs: Seq<(Seq<char>, RegionView)>, name: Seq<char>, i: int)
    requires
        0 <= i < rs.len(),
        rs[i].0 == name,
        forall|k: int| i < k < rs.len() ==> rs[k].0 != name,
    ensures
        region_index(rs, name) == i,
    decreases rs.len(),
{
    if rs.len() - 1 != i {
        let p = rs.drop_last();
        assert forall|k: int| i < k < p.len() implies p[k].0 != name by {
            assert(p[k] == rs[k]);
        }
        lemma_last_match(p, name, i);
    }
}

} // verus!
