//! A cooperative scheduler: tasks wait in a queue; scheduling hands out the
//! first ready task and moves it to the back as running, keeping every
//! other task; a running task can yield, be resumed and complete.

use vstd::prelude::*;
use crate::runtime::effect_handler::RuntimeState;
use crate::text::text_num;

verus! {

/// A task with its state.
#[derive(Debug)]
pub struct Task {
    pub id: u32,
    pub state: RuntimeState,
    pub status: TaskStatus,
}

/// Where a task is in its life.
#[derive(Debug, Clone, Copy, PartialEq, Eq, Structural)]
pub enum TaskStatus {
    Ready,
    Running,
    Suspended,
    Completed,
}

/// The ids and statuses of a queue of tasks.
pub open spec fn task_views(q: Seq<Task>) -> Seq<(u32, TaskStatus)> {
    q.map_values(|t: Task| (t.id, t.status))
}

/// The position of the first task with id `id`, if any.
pub open spec fn first_with_id(q: Seq<(u32, TaskStatus)>, id: u32) -> Option<int>
    decreases q.len(),
{
    if q.len() == 0 {
        None
    } else if q[0].0 == id {
        Some(0)
    } else {
        match first_with_id(q.drop_first(), id) {
            Some(i) => Some(i + 1),
            None => None,
        }
    }
}

/// The position of the first ready task, if any.
pub open spec fn first_ready(q: Seq<(u32, TaskStatus)>) -> Option<int>
    decreases q.len(),
{
    if q.len() == 0 {
        None
    } else if q[0].1 == TaskStatus::Ready {
        Some(0)
    } else {
        match first_ready(q.drop_first()) {
            Some(i) => Some(i + 1),
            None => None,
        }
    }
}

/// The number of ready tasks.
pub open spec fn ready_in(q: Seq<(u32, TaskStatus)>) -> nat
    decreases q.len(),
{
    if q.len() == 0 {
        0
    } else {
        ready_in(q.drop_last()) + if q.last().1 == TaskStatus::Ready { 1nat } else { 0nat }
    }
}

/// The queue after scheduling: the first ready task moves to the back as
/// running, and the others keep their order and status; without a ready
/// task the queue is unchanged.
pub open spec fn after_schedule(q: Seq<(u32, TaskStatus)>) -> Seq<(u32, TaskStatus)> {
    match first_ready(q) {
        Some(i) => q.remove(i).push((q[i].0, TaskStatus::Running)),
        None => q,
    }
}

/// The queue after scheduling over and over, at most `n` times, until no
/// task is ready.
pub open spec fn drained(q: Seq<(u32, TaskStatus)>, n: nat) -> Seq<(u32, TaskStatus)>
    decreases n,
{
    if n == 0 || first_ready(q) is None {
        q
    } else {
        drained(after_schedule(q), (n - 1) as nat)
    }
}

/// The queue with the status of the first task with `id` set to `s`.
pub open spec fn with_status(q: Seq<(u32, TaskStatus)>, id: u32, s: TaskStatus) -> Seq<(u32, TaskStatus)> {
    match first_with_id(q, id) {
        Some(i) => q.update(i, (id, s)),
        None => q,
    }
}

/// A found position is the first with that id.
pub proof fn lemma_first_with_id(q: Seq<(u32, TaskStatus)>, id: u32)
    ensures
        match first_with_id(q, id) {
            Some(i) => 0 <= i < q.len() && q[i].0 == id && forall|j: int| 0 <= j < i ==> q[j].0 != id,
            None => forall|j: int| 0 <= j < q.len() ==> q[j].0 != id,
        },
    decreases q.len(),
{
    if q.len() > 0 {
        lemma_first_with_id(q.drop_first(), id);
        assert forall|j: int| 1 <= j < q.len() implies q[j] == q.drop_first()[j - 1] by {}
    }
}

/// A found position is the first ready task.
pub proof fn lemma_first_ready(q: Seq<(u32, TaskStatus)>)
    ensures
        match first_ready(q) {
            Some(i) => 0 <= i < q.len() && q[i].1 == TaskStatus::Ready && forall|j: int| 0 <= j < i ==> q[j].1 != TaskStatus::Ready,
            None => forall|j: int| 0 <= j < q.len() ==> q[j].1 != TaskStatus::Ready,
        },
    decreases q.len(),
{
    if q.len() > 0 {
        lemma_first_ready(q.drop_first());
        assert forall|j: int| 1 <= j < q.len() implies q[j] == q.drop_first()[j - 1] by {}
    }
}

/// The task scheduler.
pub struct Scheduler {
    tasks: Vec<Task>,
    current_task: Option<u32>,
    task_counter: u32,
}

impl Scheduler {
    /// The queued tasks as ids and statuses.
    pub closed spec fn queue(&self) -> Seq<(u32, TaskStatus)> {
        task_views(self.tasks@)
    }

    /// The task scheduled last, if any.
    pub closed spec fn current(&self) -> Option<u32> {
        self.current_task
    }

    /// The states of the queued tasks, in queue order.
    pub closed spec fn states(&self) -> Seq<RuntimeState> {
        self.tasks@.map_values(|t: Task| t.state)
    }

    /// The id the next spawned task gets.
    pub closed spec fn next_id(&self) -> u32 {
        self.task_counter
    }

    /// An empty scheduler.
    pub fn new() -> (s: Self)
        ensures
            s.queue() == Seq::<(u32, TaskStatus)>::empty(),
            s.current() is None,
            s.next_id() == 0,
    {
        let s = Scheduler { tasks: Vec::new(), current_task: None, task_counter: 0 };
        assert(s.queue() =~= Seq::<(u32, TaskStatus)>::empty());
        s
    }

    /// Queues a ready task with the next id and returns the id.
    pub fn spawn(&mut self, initial_state: RuntimeState) -> (id: u32)
        requires
            old(self).next_id() < u32::MAX,
        ensures
            id == old(self).next_id(),
            final(self).next_id() == old(self).next_id() + 1,
            final(self).queue() == old(self).queue().push((id, TaskStatus::Ready)),
            final(self).states() == old(self).states().push(initial_state),
            final(self).current() == old(self).current(),
    {
        let id = self.task_counter;
        self.task_counter = self.task_counter + 1;
        self.tasks.push(Task { id, state: initial_state, status: TaskStatus::Ready });
        assert(self.queue() =~= old(self).queue().push((id, TaskStatus::Ready)));
        assert(self.states() =~= old(self).states().push(initial_state));
        id
    }

    /// Hands out the first ready task: it moves to the back of the queue as
    /// running and becomes current; every other task keeps its place and
    /// status. Without a ready task nothing changes.
    pub fn schedule_next(&mut self) -> (r: Option<u32>)
        ensures
            final(self).next_id() == old(self).next_id(),
            final(self).queue() == after_schedule(old(self).queue()),
            match first_ready(old(self).queue()) {
                Some(i) => {
                    &&& r == Some(old(self).queue()[i].0)
                    &&& final(self).states() == old(self).states().remove(i).push(old(self).states()[i])
                    &&& final(self).current() == r
                },
                None => r is None && final(self).states() == old(self).states() && final(self).current() == old(self).current(),
            },
    {
        let ghost q = self.queue();
        proof { lemma_first_ready(q); }
        let mut i: usize = 0;
        while i < self.tasks.len()
            invariant
                q == old(self).queue(),
                self.tasks@ == old(self).tasks@,
                self.task_counter == old(self).task_counter,
                self.current_task == old(self).current_task,
                i <= self.tasks@.len(),
                forall|j: int| 0 <= j < i ==> q[j].1 != TaskStatus::Ready,
                match first_ready(q) {
                    Some(k) => 0 <= k < q.len() && q[k].1 == TaskStatus::Ready && forall|j: int| 0 <= j < k ==> q[j].1 != TaskStatus::Ready,
                    None => forall|j: int| 0 <= j < q.len() ==> q[j].1 != TaskStatus::Ready,
                },
            decreases self.tasks@.len() - i,
        {
            if self.tasks[i].status == TaskStatus::Ready {
                let ghost before = self.tasks@;
                assert(q[i as int] == (before[i as int].id, before[i as int].status));
                let mut t = self.tasks.remove(i);
                let id = t.id;
                t.status = TaskStatus::Running;
                self.current_task = Some(id);
                self.tasks.push(t);
                proof {
                    if first_ready(q) != Some(i as int) {
                        let k = first_ready(q)->Some_0;
                        if k < i {
                            assert(q[k].1 != TaskStatus::Ready);
                        } else {
                            assert(q[i as int].1 != TaskStatus::Ready);
                        }
                    }
                    assert(self.tasks@ == before.remove(i as int).push(t));
                    assert(self.queue() =~= q.remove(i as int).push((id, TaskStatus::Running)));
                    assert(self.states() =~= old(self).states().remove(i as int).push(old(self).states()[i as int]));
                }
                return Some(id);
            }
            i = i + 1;
        }
        None
    }

    fn position_of(&self, id: u32) -> (r: Option<usize>)
        ensures
            match r {
                Some(p) => first_with_id(self.queue(), id) == Some(p as int) && p < self.queue().len(),
                None => first_with_id(self.queue(), id) is None,
            },
    {
        proof { lemma_first_with_id(self.queue(), id); }
        let mut i: usize = 0;
        while i < self.tasks.len()
            invariant
                i <= self.tasks@.len(),
                forall|j: int| 0 <= j < i ==> self.queue()[j].0 != id,
                match first_with_id(self.queue(), id) {
                    Some(k) => 0 <= k < self.queue().len() && self.queue()[k].0 == id && forall|j: int| 0 <= j < k ==> self.queue()[j].0 != id,
                    None => forall|j: int| 0 <= j < self.queue().len() ==> self.queue()[j].0 != id,
                },
            decreases self.tasks@.len() - i,
        {
            if self.tasks[i].id == id {
                assert(self.queue()[i as int].0 == id);
                proof {
                    match first_with_id(self.queue(), id) {
                        Some(k) => {
                            if k < i {
                                assert(self.queue()[k].0 != id);
                            } else if k > i {
                                assert(self.queue()[i as int].0 != id);
                            }
                        },
                        None => {
                            assert(self.queue()[i as int].0 != id);
                        },
                    }
                }
                return Some(i);
            }
            i = i + 1;
        }
        None
    }

    fn set_status(&mut self, pos: usize, s: TaskStatus)
        requires
            pos < old(self).queue().len(),
        ensures
            final(self).queue() == old(self).queue().update(pos as int, (old(self).queue()[pos as int].0, s)),
            final(self).states() == old(self).states(),
            final(self).current() == old(self).current(),
            final(self).next_id() == old(self).next_id(),
    {
        let mut t = self.tasks.remove(pos);
        t.status = s;
        self.tasks.insert(pos, t);
        assert(self.queue() =~= old(self).queue().update(pos as int, (old(self).queue()[pos as int].0, s)));
        assert(self.states() =~= old(self).states());
    }

    /// Suspends the current task.
    pub fn yield_task(&mut self)
        ensures
            final(self).states() == old(self).states(),
            final(self).queue() == (match old(self).current() {
                Some(c) => with_status(old(self).queue(), c, TaskStatus::Suspended),
                None => old(self).queue(),
            }),
            final(self).current() == old(self).current(),
            final(self).next_id() == old(self).next_id(),
    {
        if let Some(current_id) = self.current_task {
            proof { lemma_first_with_id(self.queue(), current_id); }
            if let Some(pos) = self.position_of(current_id) {
                self.set_status(pos, TaskStatus::Suspended);
            }
        }
    }

    /// Makes a suspended task ready again.
    pub fn resume_task(&mut self, task_id: u32) -> (r: Result<(), String>)
        ensures
            final(self).states() == old(self).states(),
            final(self).current() == old(self).current(),
            final(self).next_id() == old(self).next_id(),
            match first_with_id(old(self).queue(), task_id) {
                Some(i) => if old(self).queue()[i].1 == TaskStatus::Suspended {
                    r is Ok && final(self).queue() == old(self).queue().update(i, (task_id, TaskStatus::Ready))
                } else {
                    r matches Err(m) && m@ == "Task "@ + crate::text::dec(task_id as nat) + " not found or not suspended"@
                        && final(self).queue() == old(self).queue()
                },
                None => r matches Err(m) && m@ == "Task "@ + crate::text::dec(task_id as nat) + " not found or not suspended"@
                    && final(self).queue() == old(self).queue(),
            },
    {
        proof { lemma_first_with_id(self.queue(), task_id); }
        if let Some(pos) = self.position_of(task_id) {
            if self.tasks[pos].status == TaskStatus::Suspended {
                self.set_status(pos, TaskStatus::Ready);
                return Ok(());
            }
        }
        Err(text_num("Task ", task_id as u64, " not found or not suspended"))
    }

    /// Marks a task completed.
    pub fn complete_task(&mut self, task_id: u32)
        ensures
            final(self).states() == old(self).states(),
            final(self).queue() == with_status(old(self).queue(), task_id, TaskStatus::Completed),
            final(self).current() == old(self).current(),
            final(self).next_id() == old(self).next_id(),
    {
        proof { lemma_first_with_id(self.queue(), task_id); }
        if let Some(pos) = self.position_of(task_id) {
            self.set_status(pos, TaskStatus::Completed);
        }
    }

    /// The state of the current task, for the caller to change in place.
    pub fn get_current_state_mut(&mut self) -> (r: Option<&mut RuntimeState>)
        ensures
            final(self).queue() == old(self).queue(),
            final(self).current() == old(self).current(),
            final(self).next_id() == old(self).next_id(),
            match old(self).current() {
                None => r is None && final(self).states() == old(self).states(),
                Some(c) => match first_with_id(old(self).queue(), c) {
                    None => r is None && final(self).states() == old(self).states(),
                    Some(i) => r is Some && *r->0 == old(self).states()[i]
                        && final(self).states() == old(self).states().update(i, *final(r->0)),
                },
            },
    {
        match self.current_task {
            None => None,
            Some(current_id) => match self.position_of(current_id) {
                None => None,
                Some(pos) => Some(&mut self.tasks[pos].state),
            },
        }
    }

    /// The number of ready tasks.
    pub fn ready_count(&self) -> (n: usize)
        ensures
            n == ready_in(self.queue()),
    {
        let mut n: usize = 0;
        let mut i: usize = 0;
        while i < self.tasks.len()
            invariant
                i <= self.tasks@.len(),
                n == ready_in(self.queue().take(i as int)),
                n <= i,
            decreases self.tasks@.len() - i,
        {
            assert(self.queue().take(i + 1).drop_last() =~= self.queue().take(i as int));
            if self.tasks[i].status == TaskStatus::Ready {
                n = n + 1;
            }
            i = i + 1;
        }
        assert(self.queue().take(i as int) =~= self.queue());
        n
    }

    /// Whether any task is queued.
    pub fn has_tasks(&self) -> (b: bool)
        ensures
            b == (self.queue().len() > 0),
    {
        self.tasks.len() > 0
    }
}

} // verus!
