//! RMIR instructions and the execution state they transform.

use vstd::prelude::*;
use std::collections::HashMap;

verus! {

/// A unique identifier for values, regions, pointers, etc.
pub type Id = u32;

/// A region identifier uniquely naming a memory region.
pub type RegionId = u32;

/// A runtime value.
#[derive(Debug)]
pub enum Value {
    Int(i64),
    Pointer(Id),
    /// A reference to a value, with its mode (`"shared"` or `"mut"`).
    Reference(Id, String),
    Boolean(bool),
}

impl Clone for Value {
    fn clone(&self) -> (r: Self)
        ensures
            r == *self,
    {
        match self {
            Value::Int(i) => Value::Int(*i),
            Value::Pointer(p) => Value::Pointer(*p),
            Value::Reference(id, mode) => Value::Reference(*id, mode.clone()),
            Value::Boolean(b) => Value::Boolean(*b),
        }
    }
}

/// The lifecycle status of a region: unentered, then active with its live
/// allocations, then closed.
#[derive(Debug)]
pub enum RegionStatus {
    Unentered,
    Active { allocations: Vec<Id> },
    Closed,
}

/// The mathematical form of a region status.
pub enum RegionView {
    Unentered,
    Active(Seq<u32>),
    Closed,
}

impl RegionStatus {
    pub open spec fn view(&self) -> RegionView {
        match self {
            RegionStatus::Unentered => RegionView::Unentered,
            RegionStatus::Active { allocations } => RegionView::Active(allocations@),
            RegionStatus::Closed => RegionView::Closed,
        }
    }
}

impl Clone for RegionStatus {
    fn clone(&self) -> (r: Self)
        ensures
            r.view() == self.view(),
    {
        match self {
            RegionStatus::Unentered => RegionStatus::Unentered,
            RegionStatus::Active { allocations } => RegionStatus::Active { allocations: allocations.clone() },
            RegionStatus::Closed => RegionStatus::Closed,
        }
    }
}

/// A linear capability: permission to perform an action.
#[derive(Debug, Clone, Copy, PartialEq, Eq, Structural)]
pub enum CapabilityKind {
    Read,
    Write,
    Deallocate,
}

/// A runtime side effect and its payload.
#[derive(Debug)]
pub struct Effect {
    /// "IO", "State", "Async", "Region", "GC", "Exception", "FFI" or "Concurrency".
    pub kind: String,
    pub request: String,
}

impl Clone for Effect {
    fn clone(&self) -> (r: Self)
        ensures
            r == *self,
    {
        Effect { kind: self.kind.clone(), request: self.request.clone() }
    }
}

/// A lemma the prover must discharge.
#[derive(Debug)]
pub struct ProofObligation {
    pub id: u32,
    pub kind: String,
    pub description: String,
}

impl Clone for ProofObligation {
    fn clone(&self) -> (r: Self)
        ensures
            r == *self,
    {
        ProofObligation { id: self.id, kind: self.kind.clone(), description: self.description.clone() }
    }
}

/// The key of a capability: a region and a pointer, packed into one integer.
pub open spec fn cap_key(region: u32, ptr: u32) -> u64 {
    (region as int * 0x1_0000_0000 + ptr as int) as u64
}

fn pack_cap_key(region: u32, ptr: u32) -> (k: u64)
    ensures
        k == cap_key(region, ptr),
{
    (region as u64) * 0x1_0000_0000 + (ptr as u64)
}

proof fn lemma_cap_key_injective(r1: u32, p1: u32, r2: u32, p2: u32)
    ensures
        cap_key(r1, p1) == cap_key(r2, p2) ==> r1 == r2 && p1 == p2,
{
}

/// Linear capabilities, keyed by (region, pointer).
#[derive(Debug)]
pub struct CapabilityTable {
    entries: HashMap<u64, CapabilityKind>,
}

impl CapabilityTable {
    /// The capabilities as a map from (region, pointer).
    pub closed spec fn view(&self) -> Map<(u32, u32), CapabilityKind> {
        Map::new(
            |k: (u32, u32)| self.entries@.contains_key(cap_key(k.0, k.1)),
            |k: (u32, u32)| self.entries@[cap_key(k.0, k.1)],
        )
    }

    /// Every stored key is the packing of some (region, pointer).
    pub closed spec fn wf(&self) -> bool {
        forall|k: u64| #[trigger] self.entries@.contains_key(k) ==> k == cap_key((k / 0x1_0000_0000) as u32, (k % 0x1_0000_0000) as u32)
    }

    /// An empty table.
    pub fn new() -> (t: Self)
        ensures
            t.wf(),
            t@ == Map::<(u32, u32), CapabilityKind>::empty(),
    {
        let t = CapabilityTable { entries: HashMap::new() };
        assert(t@ =~= Map::<(u32, u32), CapabilityKind>::empty());
        t
    }

    /// The capability held for a pointer of a region, if any.
    pub fn get(&self, region: u32, ptr: u32) -> (r: Option<CapabilityKind>)
        ensures
            r == (if self@.contains_key((region, ptr)) { Some(self@[(region, ptr)]) } else { None::<CapabilityKind> }),
    {
        let k = pack_cap_key(region, ptr);
        match self.entries.get(&k) {
            Some(c) => Some(*c),
            None => None,
        }
    }

    /// Grants a capability.
    pub fn insert(&mut self, region: u32, ptr: u32, kind: CapabilityKind)
        requires
            old(self).wf(),
        ensures
            final(self).wf(),
            final(self)@ == old(self)@.insert((region, ptr), kind),
    {
        let k = pack_cap_key(region, ptr);
        self.entries.insert(k, kind);
        proof {
            assert forall|q: (u32, u32)| #![auto] self@.contains_key(q) == old(self)@.insert((region, ptr), kind).contains_key(q) by {
                lemma_cap_key_injective(q.0, q.1, region, ptr);
            }
            assert forall|q: (u32, u32)| #![auto] self@.contains_key(q) ==> self@[q] == old(self)@.insert((region, ptr), kind)[q] by {
                lemma_cap_key_injective(q.0, q.1, region, ptr);
            }
            assert(self@ =~= old(self)@.insert((region, ptr), kind));
        }
    }

    /// Withdraws a capability.
    pub fn remove(&mut self, region: u32, ptr: u32)
        requires
            old(self).wf(),
        ensures
            final(self).wf(),
            final(self)@ == old(self)@.remove((region, ptr)),
    {
        let k = pack_cap_key(region, ptr);
        self.entries.remove(&k);
        proof {
            assert forall|q: (u32, u32)| #![auto] self@.contains_key(q) == old(self)@.remove((region, ptr)).contains_key(q) by {
                lemma_cap_key_injective(q.0, q.1, region, ptr);
            }
            assert forall|q: (u32, u32)| #![auto] self@.contains_key(q) ==> self@[q] == old(self)@.remove((region, ptr))[q] by {
                lemma_cap_key_injective(q.0, q.1, region, ptr);
            }
            assert(self@ =~= old(self)@.remove((region, ptr)));
        }
    }
}

impl Clone for CapabilityTable {
    fn clone(&self) -> (r: Self)
        ensures
            r@ == self@,
            self.wf() ==> r.wf(),
    {
        let r = CapabilityTable { entries: self.entries.clone() };
        assert(r@ =~= self@);
        r
    }
}

/// The mathematical form of a proof obligation: id, kind and description.
pub type ObligationView = (u32, Seq<char>, Seq<char>);

impl ProofObligation {
    pub open spec fn view(&self) -> ObligationView {
        (self.id, self.kind@, self.description@)
    }
}

/// The mathematical form of a sequence of proof obligations.
pub open spec fn obligations_view(v: Seq<ProofObligation>) -> Seq<ObligationView> {
    v.map_values(|o: ProofObligation| o.view())
}

/// The execution state after each instruction.
#[derive(Debug)]
pub struct ExecutionState {
    /// Current values (SSA form).
    pub values: HashMap<Id, Value>,
    /// Region states.
    pub regions: HashMap<RegionId, RegionStatus>,
    /// Linear capabilities per (region, pointer).
    pub capabilities: CapabilityTable,
    /// Effects emitted so far, in order.
    pub effects: Vec<Effect>,
    /// Proof obligations generated so far, in order.
    pub proof_obligations: Vec<ProofObligation>,
    /// Program counter.
    pub pc: u32,
}

/// The mathematical form of an execution state.
pub struct StateView {
    pub values: Map<u32, Value>,
    pub regions: Map<u32, RegionView>,
    pub capabilities: Map<(u32, u32), CapabilityKind>,
    pub effects: Seq<Effect>,
    pub proof_obligations: Seq<ObligationView>,
    pub pc: u32,
}

impl ExecutionState {
    pub open spec fn view(&self) -> StateView {
        StateView {
            values: self.values@,
            regions: self.regions@.map_values(|r: RegionStatus| r.view()),
            capabilities: self.capabilities@,
            effects: self.effects@,
            proof_obligations: obligations_view(self.proof_obligations@),
            pc: self.pc,
        }
    }

    /// The capability table is well formed.
    pub open spec fn wf(&self) -> bool {
        self.capabilities.wf()
    }

    /// The initial state: no values, regions, capabilities, effects or
    /// obligations, at program counter 0.
    pub fn new() -> (s: Self)
        ensures
            s.wf(),
            s.view().values == Map::<u32, Value>::empty(),
            s.view().regions == Map::<u32, RegionView>::empty(),
            s.view().capabilities == Map::<(u32, u32), CapabilityKind>::empty(),
            s.view().effects == Seq::<Effect>::empty(),
            s.view().proof_obligations == Seq::<ObligationView>::empty(),
            s.view().pc == 0,
    {
        let s = ExecutionState {
            values: HashMap::new(),
            regions: HashMap::new(),
            capabilities: CapabilityTable::new(),
            effects: Vec::new(),
            proof_obligations: Vec::new(),
            pc: 0,
        };
        assert(s.view().regions =~= Map::<u32, RegionView>::empty());
        assert(s.view().proof_obligations =~= Seq::<ObligationView>::empty());
        s
    }
}

/// Copies a sequence of effects.
pub fn clone_effects(v: &Vec<Effect>) -> (r: Vec<Effect>)
    ensures
        r@ == v@,
{
    let mut r: Vec<Effect> = Vec::new();
    let mut i: usize = 0;
    while i < v.len()
        invariant
            i <= v@.len(),
            r@ == v@.subrange(0, i as int),
        decreases v@.len() - i,
    {
        r.push(v[i].clone());
        assert(r@ =~= v@.subrange(0, i + 1));
        i = i + 1;
    }
    assert(r@ =~= v@);
    r
}

/// Copies a sequence of proof obligations.
pub fn clone_obligations(v: &Vec<ProofObligation>) -> (r: Vec<ProofObligation>)
    ensures
        r@ == v@,
{
    let mut r: Vec<ProofObligation> = Vec::new();
    let mut i: usize = 0;
    while i < v.len()
        invariant
            i <= v@.len(),
            r@ == v@.subrange(0, i as int),
        decreases v@.len() - i,
    {
        r.push(v[i].clone());
        assert(r@ =~= v@.subrange(0, i + 1));
        i = i + 1;
    }
    assert(r@ =~= v@);
    r
}

impl Clone for ExecutionState {
    fn clone(&self) -> (r: Self)
        ensures
            r.view() == self.view(),
            self.wf() ==> r.wf(),
    {
        ExecutionState {
            values: self.values.clone(),
            regions: self.regions.clone(),
            capabilities: self.capabilities.clone(),
            effects: clone_effects(&self.effects),
            proof_obligations: clone_obligations(&self.proof_obligations),
            pc: self.pc,
        }
    }
}

/// One step of execution.
#[derive(Debug)]
pub enum RmirInstruction {
    /// values[id] = value.
    Assign { id: Id, value: Value },
    /// Transfers ownership: values[dst] = values[src], and src is invalidated.
    Move { src: Id, dst: Id },
    /// Creates a reference to `src` with a mode ("shared" or "mut") valid
    /// until program point `lifetime`.
    Borrow { src: Id, borrow_id: Id, mode: String, lifetime: u32 },
    /// Invalidates a value.
    Consume { id: Id },
    /// Begins a region's lifetime.
    RegionEnter { region_id: RegionId },
    /// Allocates in an active region and grants the write capability.
    Allocate { region_id: RegionId, size: u32, ptr_id: Id },
    /// Frees an allocation of an active region.
    Deallocate { region_id: RegionId, ptr_id: Id },
    /// Ends an active region's lifetime once nothing is allocated in it.
    RegionExit { region_id: RegionId },
    /// Requests a side effect.
    EffectEmit { effect: Effect },
    /// A predicate the prover must verify.
    Assert { predicate: String },
}

/// A function in RMIR form: its instructions with the initial and final states.
#[derive(Debug)]
pub struct RmirFunction {
    pub name: String,
    pub instructions: Vec<RmirInstruction>,
    pub initial_state: ExecutionState,
    pub final_state: ExecutionState,
}

} // verus!
