//! The execution state machine: one RMIR instruction checks its
//! precondition, transforms the state and emits proof obligations.

use vstd::prelude::*;
use crate::compiler::rmir::ir::{
    Value, RegionStatus, RegionView, CapabilityKind, Effect, ProofObligation, ObligationView,
    ExecutionState, StateView, RmirInstruction, obligations_view,
};
use crate::text::{dec, debug_u32_list, text_num, text_num2, text_then_num, text_num_num, text_concat, string_of, push_u32_list};

verus! {

broadcast use vstd::std_specs::hash::group_hash_axioms;

/// `s` with every occurrence of `x` removed, order kept.
pub open spec fn remove_all(s: Seq<u32>, x: u32) -> Seq<u32>
    decreases s.len(),
{
    if s.len() == 0 {
        Seq::empty()
    } else if s.last() == x {
        remove_all(s.drop_last(), x)
    } else {
        remove_all(s.drop_last(), x).push(s.last())
    }
}

/// Membership after removal: everything but `x` that was there.
pub proof fn lemma_remove_all_contains(s: Seq<u32>, x: u32, q: u32)
    ensures
        remove_all(s, x).contains(q) <==> (s.contains(q) && q != x),
    decreases s.len(),
{
    if s.len() > 0 {
        lemma_remove_all_contains(s.drop_last(), x, q);
        let r = remove_all(s.drop_last(), x);
        if s.contains(q) && q != x {
            let i = choose|i: int| 0 <= i < s.len() && s[i] == q;
            if i < s.len() - 1 {
                assert(s.drop_last()[i] == q);
            }
        }
        if s.drop_last().contains(q) {
            let i = choose|i: int| 0 <= i < s.drop_last().len() && s.drop_last()[i] == q;
            assert(s[i] == q);
        }
        if r.push(s.last()).contains(q) && s.last() != x {
            let i = choose|i: int| 0 <= i < r.push(s.last()).len() && r.push(s.last())[i] == q;
            if i < r.len() {
                assert(r[i] == q);
            }
        }
        if s.last() == q && q != x {
            assert(r.push(s.last())[r.len() as int] == q);
        }
        if r.contains(q) && s.last() != x {
            let i = choose|i: int| 0 <= i < r.len() && r[i] == q;
            assert(r.push(s.last())[i] == q);
        }
    }
}

/// An obligation with its fields.
pub open spec fn ob(id: u32, kind: Seq<char>, description: Seq<char>) -> ObligationView {
    (id, kind, description)
}

/// A state with the given parts.
pub open spec fn state_of(
    values: Map<u32, Value>,
    regions: Map<u32, RegionView>,
    capabilities: Map<(u32, u32), CapabilityKind>,
    effects: Seq<Effect>,
    proof_obligations: Seq<ObligationView>,
    pc: u32,
) -> StateView {
    StateView { values, regions, capabilities, effects, proof_obligations, pc }
}

/// The region's status, `Unentered` when it was never mentioned.
pub open spec fn region_of(s: StateView, r: u32) -> RegionView {
    if s.regions.contains_key(r) { s.regions[r] } else { RegionView::Unentered }
}

/// The next state and the obligations of one successful step that changes
/// only values and adds at most one obligation.
pub open spec fn with_values(s: StateView, values: Map<u32, Value>, obs: Seq<ObligationView>) -> (StateView, Seq<ObligationView>) {
    (state_of(values, s.regions, s.capabilities, s.effects, s.proof_obligations + obs, (s.pc + 1) as u32), obs)
}

/// The meaning of one instruction: the next state and the obligations it
/// generates, or the message of the violated precondition.
pub open spec fn step(instr: RmirInstruction, s: StateView) -> Result<(StateView, Seq<ObligationView>), Seq<char>> {
    let id = s.proof_obligations.len() as u32;
    match instr {
        RmirInstruction::Assign { id: v, value } => Ok(with_values(s, s.values.insert(v, value), Seq::empty())),
        RmirInstruction::Move { src, dst } => if s.values.contains_key(src) {
            Ok(with_values(
                s,
                s.values.insert(dst, s.values[src]).remove(src),
                seq![ob(id, "no_use_after_move"@, "Value "@ + dec(src as nat) + " moved to "@ + dec(dst as nat))],
            ))
        } else {
            Err("Value "@ + dec(src as nat) + " not found"@)
        },
        RmirInstruction::Borrow { src, borrow_id, mode, lifetime } => if s.values.contains_key(src) {
            Ok(with_values(
                s,
                s.values.insert(borrow_id, Value::Reference(src, mode)),
                seq![ob(id, "borrow_lifetime_valid"@,
                    "Borrow "@ + dec(borrow_id as nat) + " of "@ + dec(src as nat) + " valid until program point "@ + dec(lifetime as nat))],
            ))
        } else {
            Err("Value "@ + dec(src as nat) + " not found"@)
        },
        RmirInstruction::Consume { id: v } => if s.values.contains_key(v) {
            Ok(with_values(s, s.values.remove(v), seq![ob(id, "no_use_after_consume"@, "Value "@ + dec(v as nat) + " consumed here"@)]))
        } else {
            Err("Cannot consume non-existent value "@ + dec(v as nat))
        },
        RmirInstruction::RegionEnter { region_id: r } => if region_of(s, r) is Unentered {
            let obs = seq![ob(id, "region_lifecycle"@, "Region "@ + dec(r as nat) + " entered"@)];
            Ok((state_of(s.values, s.regions.insert(r, RegionView::Active(Seq::empty())), s.capabilities, s.effects,
                s.proof_obligations + obs, (s.pc + 1) as u32), obs))
        } else {
            Err("Region "@ + dec(r as nat) + " already entered"@)
        },
        RmirInstruction::Allocate { region_id: r, size, ptr_id: p } => match region_of(s, r) {
            RegionView::Active(allocs) => {
                let obs = seq![ob(id, "allocation_wellformed"@, "Allocated "@ + dec(p as nat) + " in region "@ + dec(r as nat))];
                Ok((state_of(s.values, s.regions.insert(r, RegionView::Active(allocs.push(p))),
                    s.capabilities.insert((r, p), CapabilityKind::Write), s.effects,
                    s.proof_obligations + obs, (s.pc + 1) as u32), obs))
            },
            _ => Err("Region "@ + dec(r as nat) + " not active"@),
        },
        RmirInstruction::Deallocate { region_id: r, ptr_id: p } => match region_of(s, r) {
            RegionView::Active(allocs) => if allocs.contains(p) {
                let obs = seq![ob(id, "region_no_refs"@, "Deallocated "@ + dec(p as nat) + " from region "@ + dec(r as nat) + ", no references remain"@)];
                Ok((state_of(s.values, s.regions.insert(r, RegionView::Active(remove_all(allocs, p))),
                    s.capabilities.remove((r, p)), s.effects,
                    s.proof_obligations + obs, (s.pc + 1) as u32), obs))
            } else {
                Err("Pointer "@ + dec(p as nat) + " not allocated in region "@ + dec(r as nat))
            },
            _ => Err("Region "@ + dec(r as nat) + " not active"@),
        },
        RmirInstruction::RegionExit { region_id: r } => match region_of(s, r) {
            RegionView::Active(allocs) => if allocs.len() == 0 {
                let obs = seq![ob(id, "region_lifecycle"@, "Region "@ + dec(r as nat) + " exited"@)];
                Ok((state_of(s.values, s.regions.insert(r, RegionView::Closed), s.capabilities, s.effects,
                    s.proof_obligations + obs, (s.pc + 1) as u32), obs))
            } else {
                Err("Cannot exit region "@ + dec(r as nat) + " with active allocations: "@ + debug_u32_list(allocs))
            },
            _ => Err("Region "@ + dec(r as nat) + " not active"@),
        },
        RmirInstruction::EffectEmit { effect } => {
            let obs = seq![ob(id, "effect_precondition"@, "Effect "@ + effect.kind@ + " emitted, preconditions must be verified"@)];
            Ok((state_of(s.values, s.regions, s.capabilities, s.effects.push(effect),
                s.proof_obligations + obs, (s.pc + 1) as u32), obs))
        },
        RmirInstruction::Assert { predicate } => {
            Ok(with_values(s, s.values, seq![ob(id, "assertion"@, "Assert: "@ + predicate@)]))
        },
    }
}

fn contains_u32(v: &Vec<u32>, x: u32) -> (b: bool)
    ensures
        b == v@.contains(x),
{
    let mut i: usize = 0;
    while i < v.len()
        invariant
            i <= v@.len(),
            forall|j: int| 0 <= j < i ==> v@[j] != x,
        decreases v@.len() - i,
    {
        if v[i] == x {
            assert(v@[i as int] == x);
            return true;
        }
        i = i + 1;
    }
    false
}

fn without_u32(v: &Vec<u32>, x: u32) -> (r: Vec<u32>)
    ensures
        r@ == remove_all(v@, x),
{
    let mut r: Vec<u32> = Vec::new();
    let mut i: usize = 0;
    while i < v.len()
        invariant
            i <= v@.len(),
            r@ == remove_all(v@.subrange(0, i as int), x),
        decreases v@.len() - i,
    {
        assert(v@.subrange(0, i + 1).drop_last() =~= v@.subrange(0, i as int));
        if v[i] != x {
            r.push(v[i]);
        }
        i = i + 1;
    }
    assert(v@.subrange(0, v@.len() as int) =~= v@);
    r
}

fn copy_u32s(v: &Vec<u32>) -> (r: Vec<u32>)
    ensures
        r@ == v@,
{
    let mut r: Vec<u32> = Vec::new();
    let mut i: usize = 0;
    while i < v.len()
        invariant
            i <= v@.len(),
            r@ == v@.subrange(0, i as int),
        decreases v@.len() - i,
    {
        r.push(v[i]);
        assert(r@ =~= v@.subrange(0, i + 1));
        i = i + 1;
    }
    assert(r@ =~= v@);
    r
}

fn obligation(id: u32, kind: &str, description: String) -> (o: ProofObligation)
    ensures
        o.view() == ob(id, kind@, description@),
{
    ProofObligation { id, kind: string_of(kind), description }
}

/// Executes a single RMIR instruction on a state, producing the next state
/// and the proof obligations of this step, or the message of the violated
/// precondition.
pub fn execute_instruction(instr: &RmirInstruction, state: &ExecutionState) -> (r: Result<(ExecutionState, Vec<ProofObligation>), String>)
    requires
        state.wf(),
        state.pc < u32::MAX,
    ensures
        match step(*instr, state.view()) {
            Ok((next, obs)) => r matches Ok((n, o)) && n.wf() && n.view() == next && obligations_view(o@) == obs,
            Err(msg) => r matches Err(m) && m@ == msg,
        },
{
    let mut next_state = state.clone();
    let mut obligations: Vec<ProofObligation> = Vec::new();
    next_state.pc = next_state.pc + 1;
    let ob_id = next_state.proof_obligations.len() as u32;
    let ghost s = state.view();
    match instr {
        RmirInstruction::Assign { id, value } => {
            next_state.values.insert(*id, value.clone());
            assert(next_state.values@ == s.values.insert(*id, *value));
        },
        RmirInstruction::Move { src, dst } => {
            let val = match state.values.get(src) {
                Some(v) => v.clone(),
                None => { return Err(text_num("Value ", *src as u64, " not found")); },
            };
            next_state.values.insert(*dst, val);
            next_state.values.remove(src);
            assert(next_state.values@ == s.values.insert(*dst, s.values[*src]).remove(*src));
            obligations.push(obligation(ob_id, "no_use_after_move", text_num_num("Value ", *src as u64, " moved to ", *dst as u64)));
        },
        RmirInstruction::Borrow { src, borrow_id, mode, lifetime } => {
            if !state.values.contains_key(src) {
                return Err(text_num("Value ", *src as u64, " not found"));
            }
            next_state.values.insert(*borrow_id, Value::Reference(*src, mode.clone()));
            let mut d = text_num2("Borrow ", *borrow_id as u64, " of ", *src as u64, " valid until program point ");
            crate::text::push_decimal(&mut d, *lifetime as u64);
            obligations.push(obligation(ob_id, "borrow_lifetime_valid", d));
        },
        RmirInstruction::Consume { id } => {
            if !state.values.contains_key(id) {
                return Err(text_then_num("Cannot consume non-existent value ", *id as u64));
            }
            next_state.values.remove(id);
            obligations.push(obligation(ob_id, "no_use_after_consume", text_num("Value ", *id as u64, " consumed here")));
        },
        RmirInstruction::RegionEnter { region_id } => {
            let unentered = match state.regions.get(region_id) {
                None => true,
                Some(RegionStatus::Unentered) => true,
                Some(_) => false,
            };
            if !unentered {
                return Err(text_num("Region ", *region_id as u64, " already entered"));
            }
            next_state.regions.insert(*region_id, RegionStatus::Active { allocations: Vec::new() });
            assert(next_state.values@ == s.values);
            obligations.push(obligation(ob_id, "region_lifecycle", text_num("Region ", *region_id as u64, " entered")));
        },
        RmirInstruction::Allocate { region_id, size: _size, ptr_id } => {
            match state.regions.get(region_id) {
                Some(RegionStatus::Active { allocations }) => {
                    let mut new_allocs = copy_u32s(allocations);
                    new_allocs.push(*ptr_id);
                    next_state.regions.insert(*region_id, RegionStatus::Active { allocations: new_allocs });
                    next_state.capabilities.insert(*region_id, *ptr_id, CapabilityKind::Write);
                    obligations.push(obligation(ob_id, "allocation_wellformed",
                        text_num_num("Allocated ", *ptr_id as u64, " in region ", *region_id as u64)));
                },
                _ => { return Err(text_num("Region ", *region_id as u64, " not active")); },
            }
        },
        RmirInstruction::Deallocate { region_id, ptr_id } => {
            match state.regions.get(region_id) {
                Some(RegionStatus::Active { allocations }) => {
                    if !contains_u32(allocations, *ptr_id) {
                        return Err(text_num_num("Pointer ", *ptr_id as u64, " not allocated in region ", *region_id as u64));
                    }
                    let new_allocs = without_u32(allocations, *ptr_id);
                    next_state.regions.insert(*region_id, RegionStatus::Active { allocations: new_allocs });
                    next_state.capabilities.remove(*region_id, *ptr_id);
                    let mut d = text_num_num("Deallocated ", *ptr_id as u64, " from region ", *region_id as u64);
                    d.append(", no references remain");
                    obligations.push(obligation(ob_id, "region_no_refs", d));
                },
                _ => { return Err(text_num("Region ", *region_id as u64, " not active")); },
            }
        },
        RmirInstruction::RegionExit { region_id } => {
            match state.regions.get(region_id) {
                Some(RegionStatus::Active { allocations }) => {
                    if allocations.len() != 0 {
                        let mut m = text_num("Cannot exit region ", *region_id as u64, " with active allocations: ");
                        push_u32_list(&mut m, allocations);
                        return Err(m);
                    }
                    next_state.regions.insert(*region_id, RegionStatus::Closed);
                    obligations.push(obligation(ob_id, "region_lifecycle", text_num("Region ", *region_id as u64, " exited")));
                },
                _ => { return Err(text_num("Region ", *region_id as u64, " not active")); },
            }
        },
        RmirInstruction::EffectEmit { effect } => {
            next_state.effects.push(effect.clone());
            let mut d = text_concat("Effect ", effect.kind.as_str());
            d.append(" emitted, preconditions must be verified");
            obligations.push(obligation(ob_id, "effect_precondition", d));
        },
        RmirInstruction::Assert { predicate } => {
            obligations.push(obligation(ob_id, "assertion", text_concat("Assert: ", predicate.as_str())));
        },
    }
    let ghost before = next_state.proof_obligations@;
    let ghost vals0 = next_state.values@;
    let ghost regs0 = next_state.regions@;
    let ghost caps0 = next_state.capabilities;
    let ghost effs0 = next_state.effects@;
    let ghost pc0 = next_state.pc;
    let mut i: usize = 0;
    while i < obligations.len()
        invariant
            next_state.values@ == vals0,
            next_state.regions@ == regs0,
            next_state.capabilities == caps0,
            next_state.effects@ == effs0,
            next_state.pc == pc0,
            i <= obligations@.len(),
            next_state.proof_obligations@ == before + obligations@.subrange(0, i as int),
        decreases obligations@.len() - i,
    {
        next_state.proof_obligations.push(obligations[i].clone());
        assert(obligations@.subrange(0, i + 1) =~= obligations@.subrange(0, i as int).push(obligations@[i as int]));
        i = i + 1;
    }
    assert(obligations@.subrange(0, obligations@.len() as int) =~= obligations@);
    proof {
        assert(obligations_view(before + obligations@) =~= obligations_view(before) + obligations_view(obligations@));
        match step(*instr, s) {
            Ok((n, o)) => {
                assert(next_state.view().values =~= n.values);
                assert(next_state.view().regions =~= n.regions);
                assert(next_state.view().capabilities =~= n.capabilities);
                assert(next_state.view().effects =~= n.effects);
                assert(obligations_view(obligations@) =~= o);
                assert(next_state.view().proof_obligations =~= n.proof_obligations);
                assert(next_state.view().pc == n.pc);
            },
            Err(_) => {},
        }
    }
    Ok((next_state, obligations))
}

/// The position of a status in the lifecycle unentered, active, closed.
pub open spec fn lifecycle_rank(v: RegionView) -> int {
    match v {
        RegionView::Unentered => 0,
        RegionView::Active(_) => 1,
        RegionView::Closed => 2,
    }
}

/// Every capability belongs to a live allocation of an active region, and
/// every live allocation holds one.
pub open spec fn capabilities_match_allocations(s: StateView) -> bool {
    forall|r: u32, p: u32| #![trigger s.capabilities.contains_key((r, p))]
        s.capabilities.contains_key((r, p)) <==> (region_of(s, r) matches RegionView::Active(a) && a.contains(p))
}

/// Proof obligations are append-only and the program counter advances by
/// one: a successful step appends exactly the obligations it reports.
pub proof fn lemma_step_appends_obligations(instr: RmirInstruction, s: StateView)
    requires
        s.pc < u32::MAX,
    ensures
        step(instr, s) matches Ok((n, o)) ==> n.proof_obligations == s.proof_obligations + o && n.pc == s.pc + 1,
{
}

/// Regions only move forward through unentered, active, closed, one stage
/// per step, and a closed region stays closed.
pub proof fn lemma_region_lifecycle_forward(instr: RmirInstruction, s: StateView, r: u32)
    ensures
        step(instr, s) matches Ok((n, o)) ==> {
            &&& lifecycle_rank(region_of(s, r)) <= lifecycle_rank(region_of(n, r)) <= lifecycle_rank(region_of(s, r)) + 1
            &&& region_of(s, r) is Closed ==> region_of(n, r) is Closed
        },
{
}

/// No double free: once a deallocation of a pointer succeeds, deallocating
/// the same pointer from the same region again fails.
pub proof fn lemma_double_free_rejected(s: StateView, r: u32, p: u32)
    requires
        step(RmirInstruction::Deallocate { region_id: r, ptr_id: p }, s) is Ok,
    ensures
        ({
            let n = step(RmirInstruction::Deallocate { region_id: r, ptr_id: p }, s)->Ok_0.0;
            step(RmirInstruction::Deallocate { region_id: r, ptr_id: p }, n) is Err
        }),
{
    let n = step(RmirInstruction::Deallocate { region_id: r, ptr_id: p }, s)->Ok_0.0;
    match region_of(s, r) {
        RegionView::Active(allocs) => {
            assert(region_of(n, r) == RegionView::Active(remove_all(allocs, p)));
            lemma_remove_all_contains(allocs, p, p);
        },
        _ => {},
    }
}

/// No access to a closed region: entering, allocating in, deallocating from
/// or exiting a closed region fails.
pub proof fn lemma_closed_region_rejects_access(s: StateView, r: u32, p: u32, size: u32)
    requires
        region_of(s, r) is Closed,
    ensures
        step(RmirInstruction::RegionEnter { region_id: r }, s) is Err,
        step(RmirInstruction::Allocate { region_id: r, size: size, ptr_id: p }, s) is Err,
        step(RmirInstruction::Deallocate { region_id: r, ptr_id: p }, s) is Err,
        step(RmirInstruction::RegionExit { region_id: r }, s) is Err,
{
}

/// Capabilities track allocations: if every capability belongs to a live
/// allocation of an active region (and every live allocation holds one)
/// before a step, the same holds after it.
pub proof fn lemma_step_keeps_capabilities_matched(instr: RmirInstruction, s: StateView)
    requires
        capabilities_match_allocations(s),
    ensures
        step(instr, s) matches Ok((n, o)) ==> capabilities_match_allocations(n),
{
    if let Ok((n, o)) = step(instr, s) {
        match instr {
            RmirInstruction::Allocate { region_id, size, ptr_id } => {
                assert forall|r: u32, p: u32| #![trigger n.capabilities.contains_key((r, p))]
                    n.capabilities.contains_key((r, p)) <==> (region_of(n, r) matches RegionView::Active(a) && a.contains(p)) by {
                    if r == region_id {
                        if let RegionView::Active(a0) = region_of(s, r) {
                            assert(a0.push(ptr_id)[a0.len() as int] == ptr_id);
                            if a0.contains(p) {
                                let i = choose|i: int| 0 <= i < a0.len() && a0[i] == p;
                                assert(a0.push(ptr_id)[i] == p);
                            }
                            if a0.push(ptr_id).contains(p) && p != ptr_id {
                                let i = choose|i: int| 0 <= i < a0.push(ptr_id).len() && a0.push(ptr_id)[i] == p;
                                assert(a0[i] == p);
                            }
                        }
                    }
                }
            },
            RmirInstruction::Deallocate { region_id, ptr_id } => {
                assert forall|r: u32, p: u32| #![trigger n.capabilities.contains_key((r, p))]
                    n.capabilities.contains_key((r, p)) <==> (region_of(n, r) matches RegionView::Active(a) && a.contains(p)) by {
                    if r == region_id {
                        if let RegionView::Active(a0) = region_of(s, r) {
                            lemma_remove_all_contains(a0, ptr_id, p);
                        }
                    }
                }
            },
            RmirInstruction::RegionEnter { region_id } => {
                assert forall|r: u32, p: u32| #![trigger n.capabilities.contains_key((r, p))]
                    n.capabilities.contains_key((r, p)) <==> (region_of(n, r) matches RegionView::Active(a) && a.contains(p)) by {
                    if r == region_id {
                        assert(s.capabilities.contains_key((r, p)) == (region_of(s, r) matches RegionView::Active(a) && a.contains(p)));
                    }
                }
            },
            RmirInstruction::RegionExit { region_id } => {
                assert forall|r: u32, p: u32| #![trigger n.capabilities.contains_key((r, p))]
                    n.capabilities.contains_key((r, p)) <==> (region_of(n, r) matches RegionView::Active(a) && a.contains(p)) by {
                    if r == region_id {
                        assert(s.capabilities.contains_key((r, p)) == (region_of(s, r) matches RegionView::Active(a) && a.contains(p)));
                    }
                }
            },
            _ => {
                assert forall|r: u32, p: u32| #![trigger n.capabilities.contains_key((r, p))]
                    n.capabilities.contains_key((r, p)) <==> (region_of(n, r) matches RegionView::Active(a) && a.contains(p)) by {
                    assert(s.capabilities.contains_key((r, p)) == (region_of(s, r) matches RegionView::Active(a) && a.contains(p)));
                }
            },
        }
    }
}

/// No use after move: once `src` has moved to a different identifier, moving,
/// borrowing or consuming `src` again fails.
pub proof fn lemma_no_use_after_move(s: StateView, src: u32, dst: u32, other: u32, mode: String, lifetime: u32)
    requires
        src != dst,
    ensures
        step(RmirInstruction::Move { src: src, dst: dst }, s) matches Ok((n, o)) ==> {
            &&& step(RmirInstruction::Move { src: src, dst: other }, n) is Err
            &&& step(RmirInstruction::Consume { id: src }, n) is Err
            &&& step(RmirInstruction::Borrow { src: src, borrow_id: other, mode: mode, lifetime: lifetime }, n) is Err
        },
{
}

/// No use after consume: a consumed value cannot be moved, borrowed or
/// consumed again.
pub proof fn lemma_no_use_after_consume(s: StateView, v: u32, other: u32, mode: String, lifetime: u32)
    ensures
        step(RmirInstruction::Consume { id: v }, s) matches Ok((n, o)) ==> {
            &&& step(RmirInstruction::Move { src: v, dst: other }, n) is Err
            &&& step(RmirInstruction::Consume { id: v }, n) is Err
            &&& step(RmirInstruction::Borrow { src: v, borrow_id: other, mode: mode, lifetime: lifetime }, n) is Err
        },
{
}

} // verus!

verus! {

/// Law: a fresh allocation grants write access. Whenever allocating pointer
/// `p` in region `r` succeeds, the next state holds the capability `Write`
/// for `(r, p)`, the pointer is live in the region, and no other
/// capability changes.
pub proof fn lemma_allocate_grants_write(s: StateView, r: u32, size: u32, p: u32)
    ensures
        step(RmirInstruction::Allocate { region_id: r, size: size, ptr_id: p }, s) matches Ok((n, o)) ==> {
            &&& n.capabilities.contains_key((r, p))
            &&& n.capabilities[(r, p)] == CapabilityKind::Write
            &&& region_of(n, r) matches RegionView::Active(a) && a.contains(p)
            &&& forall|k: (u32, u32)| k != (r, p) ==> (#[trigger] n.capabilities.contains_key(k) == s.capabilities.contains_key(k)
                && (s.capabilities.contains_key(k) ==> n.capabilities[k] == s.capabilities[k]))
        },
{
    if let Ok((n, o)) = step(RmirInstruction::Allocate { region_id: r, size: size, ptr_id: p }, s) {
        if let RegionView::Active(a0) = region_of(s, r) {
            assert(a0.push(p)[a0.len() as int] == p);
        }
    }
}

} // verus!
