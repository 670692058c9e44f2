//! The managed executor: effect handlers registered by effect name, and a
//! run loop that schedules tasks until none is ready.

use vstd::prelude::*;
use crate::runtime::effect_handler::{EffectHandler, EffectRequest, EffectResponse};
use crate::runtime::scheduler::{Scheduler, TaskStatus, after_schedule, drained, first_ready, lemma_first_ready, ready_in};
use crate::text::text_concat;

verus! {

/// A registered handler.
struct Slot<H> {
    handler: H,
}

/// A slot holding `handler` as it was handed over.
fn slot_of<H>(handler: H) -> (s: Slot<H>)
    ensures
        s.handler == handler,
{
    Slot { handler }
}

/// Runs effects through registered handlers and tasks through a scheduler.
/// The handler for `kinds[i]` is `handlers[i]`.
pub struct ManagedExecutor {
    scheduler: Scheduler,
    kinds: Vec<String>,
    handlers: Vec<Slot<Box<dyn EffectHandler>>>,
}

/// The ready count of a concatenation adds up.
pub proof fn lemma_ready_concat(a: Seq<(u32, TaskStatus)>, b: Seq<(u32, TaskStatus)>)
    ensures
        ready_in(a + b) == ready_in(a) + ready_in(b),
    decreases b.len(),
{
    if b.len() == 0 {
        assert(a + b =~= a);
    } else {
        lemma_ready_concat(a, b.drop_last());
        assert((a + b).drop_last() =~= a + b.drop_last());
    }
}

/// A sequence with no ready task has a ready count of 0.
pub proof fn lemma_ready_none(a: Seq<(u32, TaskStatus)>)
    requires
        forall|j: int| 0 <= j < a.len() ==> a[j].1 != TaskStatus::Ready,
    ensures
        ready_in(a) == 0,
    decreases a.len(),
{
    if a.len() > 0 {
        lemma_ready_none(a.drop_last());
    }
}

/// Scheduling the first ready task lowers the ready count by one.
pub proof fn lemma_schedule_progress(q: Seq<(u32, TaskStatus)>)
    requires
        first_ready(q) is Some,
    ensures
        ready_in(after_schedule(q)) + 1 == ready_in(q),
        after_schedule(q).len() == q.len(),
{
    lemma_first_ready(q);
    let i = first_ready(q)->Some_0;
    let pre = q.take(i);
    let rest = q.skip(i + 1);
    assert(q =~= pre + seq![q[i]] + rest);
    assert(q.remove(i) =~= pre + rest);
    lemma_ready_none(pre);
    lemma_ready_concat(pre + seq![q[i]], rest);
    lemma_ready_concat(pre, seq![q[i]]);
    lemma_ready_concat(pre, rest);
    assert(seq![q[i]].drop_last() =~= Seq::<(u32, TaskStatus)>::empty());
    assert(ready_in(Seq::<(u32, TaskStatus)>::empty()) == 0);
    let moved = q.remove(i).push((q[i].0, TaskStatus::Running));
    assert(moved.drop_last() =~= q.remove(i));
}

/// At most every task is ready.
pub proof fn lemma_ready_at_most_len(q: Seq<(u32, TaskStatus)>)
    ensures
        ready_in(q) <= q.len(),
    decreases q.len(),
{
    if q.len() > 0 {
        lemma_ready_at_most_len(q.drop_last());
    }
}

impl ManagedExecutor {
    /// The registered effect names, in registration order.
    pub closed spec fn effect_kinds(&self) -> Seq<Seq<char>> {
        self.kinds@.map_values(|k: String| k@)
    }

    /// The scheduler's queue.
    pub closed spec fn queue(&self) -> Seq<(u32, TaskStatus)> {
        self.scheduler.queue()
    }

    /// One handler per registered name, and no name registered twice.
    pub closed spec fn wf(&self) -> bool {
        &&& self.kinds@.len() == self.handlers@.len()
        &&& forall|i: int, j: int| 0 <= i < j < self.kinds@.len() ==> self.kinds@[i]@ != self.kinds@[j]@
    }

    /// Whether `r` is an answer that the handler registered for the kind of
    /// `request`, in its present state, may give to it.
    pub closed spec fn handler_answers(&self, request: EffectRequest, r: Result<EffectResponse, String>) -> bool {
        exists|i: int| 0 <= i < self.kinds@.len() && i < self.handlers@.len() && #[trigger] self.kinds@[i]@ == request.kind@
            && (*self.handlers@[i].handler).answers(request, r)
    }

    /// An executor over `scheduler` with no handlers.
    pub fn new(scheduler: Scheduler) -> (e: Self)
        ensures
            e.wf(),
            e.effect_kinds() == Seq::<Seq<char>>::empty(),
            e.queue() == scheduler.queue(),
    {
        let e = ManagedExecutor { scheduler, kinds: Vec::new(), handlers: Vec::new() };
        assert(e.effect_kinds() =~= Seq::<Seq<char>>::empty());
        e
    }

    fn find(&self, kind: &String) -> (r: Option<usize>)
        ensures
            match r {
                Some(i) => i < self.effect_kinds().len() && self.effect_kinds()[i as int] == kind@,
                None => !self.effect_kinds().contains(kind@),
            },
    {
        let mut i: usize = 0;
        while i < self.kinds.len()
            invariant
                i <= self.kinds@.len(),
                forall|j: int| 0 <= j < i ==> self.effect_kinds()[j] != kind@,
            decreases self.kinds@.len() - i,
        {
            if self.kinds[i] == *kind {
                return Some(i);
            }
            i = i + 1;
        }
        None
    }

    /// Registers a handler for an effect name, replacing any handler
    /// registered for it before.
    pub fn register_handler(&mut self, effect_kind: String, handler: Box<dyn EffectHandler>)
        requires
            old(self).wf(),
        ensures
            final(self).wf(),
            final(self).effect_kinds() == (if old(self).effect_kinds().contains(effect_kind@) {
                old(self).effect_kinds()
            } else {
                old(self).effect_kinds().push(effect_kind@)
            }),
            forall|req: EffectRequest, r: Result<EffectResponse, String>| req.kind@ == effect_kind@ ==>
                #[trigger] final(self).handler_answers(req, r) == (*handler).answers(req, r),
            forall|req: EffectRequest, r: Result<EffectResponse, String>| req.kind@ != effect_kind@ ==>
                #[trigger] final(self).handler_answers(req, r) == old(self).handler_answers(req, r),
            final(self).queue() == old(self).queue(),
    {
        let ghost k = effect_kind@;
        let ghost given = handler;
        let slot = slot_of(handler);
        match self.find(&effect_kind) {
            Some(i) => {
                self.handlers.set(i, slot);
                proof {
                    assert forall|req: EffectRequest, r: Result<EffectResponse, String>| req.kind@ == k implies
                        #[trigger] self.handler_answers(req, r) == (*given).answers(req, r) by {
                        if self.handler_answers(req, r) {
                            let j = choose|j: int| 0 <= j < self.kinds@.len() && j < self.handlers@.len()
                                && #[trigger] self.kinds@[j]@ == req.kind@ && (*self.handlers@[j].handler).answers(req, r);
                            if j != i {
                                assert(self.effect_kinds()[j] == self.kinds@[j]@);
                                assert(self.effect_kinds()[i as int] == self.kinds@[i as int]@);
                            }
                        }
                        if (*given).answers(req, r) {
                            assert(self.effect_kinds()[i as int] == self.kinds@[i as int]@);
                            assert(self.kinds@[i as int]@ == req.kind@);
                        }
                    }
                    assert forall|req: EffectRequest, r: Result<EffectResponse, String>| req.kind@ != k implies
                        #[trigger] self.handler_answers(req, r) == old(self).handler_answers(req, r) by {
                        if self.handler_answers(req, r) {
                            let j = choose|j: int| 0 <= j < self.kinds@.len() && j < self.handlers@.len()
                                && #[trigger] self.kinds@[j]@ == req.kind@ && (*self.handlers@[j].handler).answers(req, r);
                            assert(self.effect_kinds()[i as int] == self.kinds@[i as int]@);
                            assert(j != i);
                            assert(old(self).kinds@[j]@ == req.kind@);
                        }
                        if old(self).handler_answers(req, r) {
                            let j = choose|j: int| 0 <= j < old(self).kinds@.len() && j < old(self).handlers@.len()
                                && #[trigger] old(self).kinds@[j]@ == req.kind@ && (*old(self).handlers@[j].handler).answers(req, r);
                            assert(old(self).effect_kinds()[i as int] == old(self).kinds@[i as int]@);
                            assert(j != i);
                            assert(self.kinds@[j]@ == req.kind@);
                        }
                    }
                }
            },
            None => {
                self.kinds.push(effect_kind);
                self.handlers.push(slot);
                assert(self.effect_kinds() =~= old(self).effect_kinds().push(k));
                proof {
                    let n = old(self).kinds@.len() as int;
                    assert forall|a: int, b: int| 0 <= a < b < self.kinds@.len() implies self.kinds@[a]@ != self.kinds@[b]@ by {
                        if b == n {
                            assert(old(self).effect_kinds()[a] == old(self).kinds@[a]@);
                        }
                    }
                    assert forall|req: EffectRequest, r: Result<EffectResponse, String>| req.kind@ == k implies
                        #[trigger] self.handler_answers(req, r) == (*given).answers(req, r) by {
                        if self.handler_answers(req, r) {
                            let j = choose|j: int| 0 <= j < self.kinds@.len() && j < self.handlers@.len()
                                && #[trigger] self.kinds@[j]@ == req.kind@ && (*self.handlers@[j].handler).answers(req, r);
                            if j != n {
                                assert(old(self).effect_kinds()[j] == old(self).kinds@[j]@);
                            }
                        }
                        if (*given).answers(req, r) {
                            assert(self.kinds@[n]@ == req.kind@);
                        }
                    }
                    assert forall|req: EffectRequest, r: Result<EffectResponse, String>| req.kind@ != k implies
                        #[trigger] self.handler_answers(req, r) == old(self).handler_answers(req, r) by {
                        if self.handler_answers(req, r) {
                            let j = choose|j: int| 0 <= j < self.kinds@.len() && j < self.handlers@.len()
                                && #[trigger] self.kinds@[j]@ == req.kind@ && (*self.handlers@[j].handler).answers(req, r);
                            assert(j != n);
                            assert(old(self).kinds@[j]@ == req.kind@);
                        }
                        if old(self).handler_answers(req, r) {
                            let j = choose|j: int| 0 <= j < old(self).kinds@.len() && j < old(self).handlers@.len()
                                && #[trigger] old(self).kinds@[j]@ == req.kind@ && (*old(self).handlers@[j].handler).answers(req, r);
                            assert(self.kinds@[j]@ == req.kind@);
                        }
                    }
                }
            },
        }
    }

    /// Runs an effect through the handler registered for its name: the
    /// request goes to that handler unchanged and its answer is returned.
    pub fn execute_effect(&mut self, effect: EffectRequest) -> (r: Result<EffectResponse, String>)
        requires
            old(self).wf(),
        ensures
            final(self).wf(),
            if old(self).effect_kinds().contains(effect.kind@) {
                old(self).handler_answers(effect, r)
            } else {
                r matches Err(m) && m@ == "No handler for effect: "@ + effect.kind@
            },
            forall|req: EffectRequest, a: Result<EffectResponse, String>| req.kind@ != effect.kind@ ==>
                #[trigger] final(self).handler_answers(req, a) == old(self).handler_answers(req, a),
            final(self).effect_kinds() == old(self).effect_kinds(),
            final(self).queue() == old(self).queue(),
    {
        let ghost k = effect.kind@;
        let ghost e = effect;
        match self.find(&effect.kind) {
            Some(i) => {
                let mut slot = self.handlers.remove(i);
                let ghost before = slot.handler;
                let r = slot.handler.handle(effect);
                assert((*before).answers(e, r));
                self.handlers.insert(i, slot);
                proof {
                    assert(old(self).kinds@[i as int]@ == k);
                    assert(old(self).handlers@[i as int].handler == before);
                    assert forall|req: EffectRequest, a: Result<EffectResponse, String>| req.kind@ != k implies
                        #[trigger] self.handler_answers(req, a) == old(self).handler_answers(req, a) by {
                        if self.handler_answers(req, a) {
                            let j = choose|j: int| 0 <= j < self.kinds@.len() && j < self.handlers@.len()
                                && #[trigger] self.kinds@[j]@ == req.kind@ && (*self.handlers@[j].handler).answers(req, a);
                            assert(j != i);
                            assert(old(self).handlers@[j] == self.handlers@[j]);
                        }
                        if old(self).handler_answers(req, a) {
                            let j = choose|j: int| 0 <= j < old(self).kinds@.len() && j < old(self).handlers@.len()
                                && #[trigger] old(self).kinds@[j]@ == req.kind@ && (*old(self).handlers@[j].handler).answers(req, a);
                            assert(j != i);
                            assert(old(self).handlers@[j] == self.handlers@[j]);
                        }
                    }
                }
                r
            },
            None => Err(text_concat("No handler for effect: ", effect.kind.as_str())),
        }
    }

    /// Schedules tasks until none is ready: each ready task in turn moves
    /// to the back of the queue as running, and no task leaves the queue.
    pub fn run(&mut self) -> (r: Result<(), String>)
        requires
            old(self).wf(),
        ensures
            final(self).wf(),
            r is Ok,
            final(self).queue() == drained(old(self).queue(), old(self).queue().len()),
            final(self).queue().len() == old(self).queue().len(),
            ready_in(final(self).queue()) == 0,
            final(self).effect_kinds() == old(self).effect_kinds(),
    {
        let ghost q0 = self.queue();
        let ghost mut fuel: nat = q0.len();
        proof { lemma_ready_at_most_len(q0); }
        let mut more = true;
        while more
            invariant
                self.wf(),
                self.effect_kinds() == old(self).effect_kinds(),
                drained(q0, q0.len()) == (if more { drained(self.queue(), fuel) } else { self.queue() }),
                self.queue().len() == q0.len(),
                ready_in(self.queue()) <= fuel,
                !more ==> ready_in(self.queue()) == 0,
            decreases ready_in(self.queue()) + if more { 1int } else { 0int },
        {
            let ghost q = self.queue();
            proof {
                lemma_first_ready(q);
                if first_ready(q) is Some {
                    lemma_schedule_progress(q);
                } else {
                    lemma_ready_none(q);
                }
            }
            let next = self.scheduler.schedule_next();
            match next {
                Some(_) => {
                    proof { fuel = (fuel - 1) as nat; }
                },
                None => {
                    more = false;
                },
            }
        }
        Ok(())
    }
}

} // verus!
