//! Effect transitions: each emitted effect moves from pending to in
//! progress to complete, and the tracker reports effects left unhandled.

use vstd::prelude::*;
use crate::text::{dec, push_decimal, str_eq, text_num};

verus! {

/// An effect operation before the runtime handles it.
#[derive(Debug, Clone)]
pub struct EffectRequest {
    /// "IO", "State", "Async", "Region", "GC", "Exception", "FFI" or "Concurrency".
    pub kind: String,
    pub payload: String,
}

/// A state change caused by handling an effect.
#[derive(Debug, Clone)]
pub struct StateChange {
    pub before: String,
    pub after: String,
}

/// Where an effect is in its lifecycle.
#[derive(Debug, Clone, Copy, PartialEq, Eq, Structural)]
pub enum EffectPhase {
    /// Emitted, not yet handled.
    Pending,
    /// A handler is processing it.
    InProgress,
    /// Handled; its state change is final.
    Complete,
    /// Handling failed.
    Failed,
}

/// The precondition that must be verified before an effect of `kind` is
/// handled, for the kinds that have one.
pub open spec fn precondition_text(kind: Seq<char>) -> Option<Seq<char>> {
    if kind == "IO"@ {
        Some("file handle must be valid and open"@)
    } else if kind == "State"@ {
        Some("mutable reference must be valid"@)
    } else if kind == "Async"@ {
        Some("scheduler must be available"@)
    } else if kind == "Region"@ {
        Some("region must be in correct state"@)
    } else if kind == "GC"@ {
        Some("heap must be consistent"@)
    } else {
        None
    }
}

/// A phase in which the effect is still owed a handler.
pub open spec fn unhandled(p: EffectPhase) -> bool {
    p == EffectPhase::Pending || p == EffectPhase::InProgress
}

/// The indices, ascending, of the unhandled effects among the first `n`.
pub open spec fn unhandled_upto(s: Seq<(EffectRequest, EffectPhase)>, n: nat) -> Seq<usize>
    decreases n,
{
    if n == 0 || n > s.len() {
        Seq::empty()
    } else if unhandled(s[n - 1].1) {
        unhandled_upto(s, (n - 1) as nat).push((n - 1) as usize)
    } else {
        unhandled_upto(s, (n - 1) as nat)
    }
}

/// The message for an effect number that was never emitted.
pub open spec fn not_found_message(id: nat) -> Seq<char> {
    "Effect "@ + dec(id) + " not found"@
}

/// Records emitted effects and their phases.
pub struct EffectTracker {
    effects: Vec<(EffectRequest, EffectPhase)>,
    effect_index: Vec<(String, usize)>,
}

impl EffectTracker {
    /// The emitted effects with their phases; an effect's number is its index.
    pub closed spec fn effects(&self) -> Seq<(EffectRequest, EffectPhase)> {
        self.effects@
    }

    /// The lookup keys `"<kind>_<number>"`, one per emitted effect.
    pub closed spec fn keys(&self) -> Seq<(Seq<char>, usize)> {
        self.effect_index@.map_values(|e: (String, usize)| (e.0@, e.1))
    }

    /// A tracker with no effects.
    pub fn new() -> (t: Self)
        ensures
            t.effects() == Seq::<(EffectRequest, EffectPhase)>::empty(),
            t.keys() == Seq::<(Seq<char>, usize)>::empty(),
    {
        let t = EffectTracker { effects: Vec::new(), effect_index: Vec::new() };
        assert(t.keys() =~= Seq::<(Seq<char>, usize)>::empty());
        t
    }

    /// Emits an effect as pending and returns its number.
    pub fn emit_effect(&mut self, effect: EffectRequest) -> (id: usize)
        ensures
            id == old(self).effects().len(),
            final(self).effects() == old(self).effects().push((effect, EffectPhase::Pending)),
            final(self).keys() == old(self).keys().push((effect.kind@ + "_"@ + dec(id as nat), id)),
    {
        let id = self.effects.len();
        let mut key = effect.kind.clone();
        key.append("_");
        push_decimal(&mut key, id as u64);
        let ghost before = self.keys();
        self.effect_index.push((key, id));
        assert(self.keys() =~= before.push((effect.kind@ + "_"@ + dec(id as nat), id)));
        self.effects.push((effect, EffectPhase::Pending));
        id
    }

    /// The precondition to verify before effect `effect_id` is handled, for
    /// an emitted effect of a kind that has one.
    pub fn effect_precondition(&self, effect_id: usize) -> (r: Option<String>)
        ensures
            effect_id >= self.effects().len() ==> r is None,
            effect_id < self.effects().len() ==> match precondition_text(self.effects()[effect_id as int].0.kind@) {
                Some(t) => r is Some && r->0@ == t,
                None => r is None,
            },
    {
        if effect_id >= self.effects.len() {
            return None;
        }
        let kind = self.effects[effect_id].0.kind.as_str();
        if str_eq(kind, "IO") {
            Some(String::from_str("file handle must be valid and open"))
        } else if str_eq(kind, "State") {
            Some(String::from_str("mutable reference must be valid"))
        } else if str_eq(kind, "Async") {
            Some(String::from_str("scheduler must be available"))
        } else if str_eq(kind, "Region") {
            Some(String::from_str("region must be in correct state"))
        } else if str_eq(kind, "GC") {
            Some(String::from_str("heap must be consistent"))
        } else {
            None
        }
    }

    fn set_phase(&mut self, effect_id: usize, phase: EffectPhase)
        requires
            effect_id < old(self).effects().len(),
        ensures
            final(self).effects() == old(self).effects().update(
                effect_id as int,
                (old(self).effects()[effect_id as int].0, phase),
            ),
            final(self).keys() == old(self).keys(),
    {
        let entry = self.effects.remove(effect_id);
        self.effects.insert(effect_id, (entry.0, phase));
        assert(self.effects@ =~= old(self).effects@.update(effect_id as int, (old(self).effects@[effect_id as int].0, phase)));
    }

    /// Moves a pending effect to in progress.
    pub fn mark_in_progress(&mut self, effect_id: usize) -> (r: Result<(), String>)
        ensures
            final(self).keys() == old(self).keys(),
            effect_id >= old(self).effects().len() ==> r is Err && r->Err_0@ == not_found_message(effect_id as nat)
                && final(self).effects() == old(self).effects(),
            effect_id < old(self).effects().len() ==> {
                let (e, p) = old(self).effects()[effect_id as int];
                if p == EffectPhase::Pending {
                    r is Ok && final(self).effects() == old(self).effects().update(effect_id as int, (e, EffectPhase::InProgress))
                } else {
                    r is Err && r->Err_0@ == "Effect "@ + dec(effect_id as nat) + " already in progress or complete"@
                        && final(self).effects() == old(self).effects()
                }
            },
    {
        if effect_id >= self.effects.len() {
            return Err(text_num("Effect ", effect_id as u64, " not found"));
        }
        if self.effects[effect_id].1 == EffectPhase::Pending {
            self.set_phase(effect_id, EffectPhase::InProgress);
            Ok(())
        } else {
            Err(text_num("Effect ", effect_id as u64, " already in progress or complete"))
        }
    }

    /// Moves an in-progress effect to complete.
    pub fn mark_complete(&mut self, effect_id: usize) -> (r: Result<(), String>)
        ensures
            final(self).keys() == old(self).keys(),
            effect_id >= old(self).effects().len() ==> r is Err && r->Err_0@ == not_found_message(effect_id as nat)
                && final(self).effects() == old(self).effects(),
            effect_id < old(self).effects().len() ==> {
                let (e, p) = old(self).effects()[effect_id as int];
                if p == EffectPhase::InProgress {
                    r is Ok && final(self).effects() == old(self).effects().update(effect_id as int, (e, EffectPhase::Complete))
                } else {
                    r is Err && r->Err_0@ == "Effect "@ + dec(effect_id as nat) + " not in progress"@
                        && final(self).effects() == old(self).effects()
                }
            },
    {
        if effect_id >= self.effects.len() {
            return Err(text_num("Effect ", effect_id as u64, " not found"));
        }
        if self.effects[effect_id].1 == EffectPhase::InProgress {
            self.set_phase(effect_id, EffectPhase::Complete);
            Ok(())
        } else {
            Err(text_num("Effect ", effect_id as u64, " not in progress"))
        }
    }

    /// Checks that every effect was handled; otherwise returns the numbers
    /// of the pending and in-progress effects, ascending.
    pub fn verify_no_unhandled_effects(&self) -> (r: Result<(), Vec<usize>>)
        ensures
            ({
                let u = unhandled_upto(self.effects(), self.effects().len());
                match r {
                    Ok(()) => u.len() == 0,
                    Err(v) => v@ == u && u.len() > 0,
                }
            }),
            r is Ok <==> forall|i: int| 0 <= i < self.effects().len() ==>
                (#[trigger] self.effects()[i].1 == EffectPhase::Complete || self.effects()[i].1 == EffectPhase::Failed),
            r matches Err(v) ==> forall|k: usize| #[trigger] v@.contains(k) <==> (k < self.effects().len()
                && self.effects()[k as int].1 != EffectPhase::Complete && self.effects()[k as int].1 != EffectPhase::Failed),
    {
        let mut out: Vec<usize> = Vec::new();
        let mut i: usize = 0;
        while i < self.effects.len()
            invariant
                i <= self.effects.len(),
                out@ == unhandled_upto(self.effects@, i as nat),
            decreases self.effects.len() - i,
        {
            let p = self.effects[i].1;
            if p == EffectPhase::Pending || p == EffectPhase::InProgress {
                out.push(i);
            }
            i = i + 1;
        }
        proof { lemma_unhandled_until_finished(self.effects@, self.effects@.len()); }
        if out.len() == 0 {
            Ok(())
        } else {
            Err(out)
        }
    }

    /// The emitted effects with their phases.
    pub fn all_effects(&self) -> (r: &[(EffectRequest, EffectPhase)])
        ensures
            r@ == self.effects(),
    {
        self.effects.as_slice()
    }
}

/// Law: after every emitted effect has been moved to in progress and then
/// to complete, nothing is left unhandled.
pub proof fn lemma_all_complete_nothing_unhandled(s: Seq<(EffectRequest, EffectPhase)>, n: nat)
    requires
        n <= s.len(),
        forall|i: int| 0 <= i < s.len() ==> #[trigger] s[i].1 == EffectPhase::Complete,
    ensures
        unhandled_upto(s, n).len() == 0,
    decreases n,
{
    if n > 0 {
        lemma_all_complete_nothing_unhandled(s, (n - 1) as nat);
    }
}

} // verus!

verus! {

/// Law: an effect counts as unhandled exactly until it finishes. An index
/// is reported among the first `n` effects exactly when that effect has
/// neither completed nor failed, whether it is still pending or already in
/// progress; so nothing is reported exactly when every effect has finished.
pub proof fn lemma_unhandled_until_finished(s: Seq<(EffectRequest, EffectPhase)>, n: nat)
    requires
        n <= s.len(),
        s.len() <= usize::MAX,
    ensures
        forall|k: usize| #[trigger] unhandled_upto(s, n).contains(k) <==> (k < n
            && s[k as int].1 != EffectPhase::Complete && s[k as int].1 != EffectPhase::Failed),
        unhandled_upto(s, n).len() == 0 <==> forall|i: int| 0 <= i < n ==>
            (#[trigger] s[i].1 == EffectPhase::Complete || s[i].1 == EffectPhase::Failed),
    decreases n,
{
    if n > 0 {
        lemma_unhandled_until_finished(s, (n - 1) as nat);
        let prev = unhandled_upto(s, (n - 1) as nat);
        let last = (n - 1) as usize;
        assert forall|k: usize| #[trigger] unhandled_upto(s, n).contains(k) <==> (k < n
            && s[k as int].1 != EffectPhase::Complete && s[k as int].1 != EffectPhase::Failed) by {
            if s[n - 1].1 != EffectPhase::Complete && s[n - 1].1 != EffectPhase::Failed {
                assert(unhandled(s[n - 1].1));
                assert(unhandled_upto(s, n) == prev.push(last));
                if prev.push(last).contains(k) && k != last {
                    let j = choose|j: int| 0 <= j < prev.push(last).len() && prev.push(last)[j] == k;
                    assert(prev[j] == k);
                }
                if prev.contains(k) {
                    let j = choose|j: int| 0 <= j < prev.len() && prev[j] == k;
                    assert(prev.push(last)[j] == k);
                }
                if k == last {
                    assert(prev.push(last)[prev.len() as int] == k);
                }
            }
        }
        if unhandled_upto(s, n).len() == 0 {
            assert forall|i: int| 0 <= i < n implies (#[trigger] s[i].1 == EffectPhase::Complete || s[i].1 == EffectPhase::Failed) by {
                if s[i].1 != EffectPhase::Complete && s[i].1 != EffectPhase::Failed {
                    assert(unhandled_upto(s, n).contains(i as usize));
                }
            }
        } else {
            let k = unhandled_upto(s, n)[0];
            assert(unhandled_upto(s, n).contains(k));
        }
    } else {
        assert(unhandled_upto(s, 0) =~= Seq::<usize>::empty());
    }
}

} // verus!
