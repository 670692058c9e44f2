//! A run queue of bytecode tasks: spawned tasks wait ready in order,
//! scheduling takes the oldest, ready tasks can be put back, and blocked
//! tasks are set aside.

use vstd::prelude::*;
use std::collections::VecDeque;

verus! {

/// Where a task is in its life; a completed task carries its exit code.
#[derive(Clone, Copy, Debug, PartialEq, Eq, Structural)]
pub enum TaskStatus {
    Ready,
    Running,
    Blocked,
    Completed(i32),
}

/// A task: its bytecode and machine state.
#[derive(Debug)]
pub struct Task {
    pub id: u32,
    pub status: TaskStatus,
    pub bytecode: Vec<u8>,
    pub ip: u32,
    pub registers: Vec<u64>,
}

/// A task with its buffers as sequences.
pub struct TaskView {
    pub id: u32,
    pub status: TaskStatus,
    pub bytecode: Seq<u8>,
    pub ip: u32,
    pub registers: Seq<u64>,
}

impl View for Task {
    type V = TaskView;

    open spec fn view(&self) -> TaskView {
        TaskView { id: self.id, status: self.status, bytecode: self.bytecode@, ip: self.ip, registers: self.registers@ }
    }
}

impl Clone for Task {
    fn clone(&self) -> (r: Self)
        ensures
            r@ == self@,
    {
        Task {
            id: self.id,
            status: self.status,
            bytecode: self.bytecode.clone(),
            ip: self.ip,
            registers: self.registers.clone(),
        }
    }
}

/// The views of a sequence of tasks.
pub open spec fn task_views(s: Seq<Task>) -> Seq<TaskView> {
    s.map_values(|t: Task| t@)
}

/// The scheduler's queues.
pub struct Scheduler {
    ready_queue: VecDeque<Task>,
    blocked_queue: Vec<Task>,
    next_task_id: u32,
}

impl Scheduler {
    /// The ready tasks, oldest first.
    pub closed spec fn ready(&self) -> Seq<TaskView> {
        task_views(self.ready_queue@)
    }

    /// The blocked tasks, in the order they were blocked.
    pub closed spec fn blocked(&self) -> Seq<TaskView> {
        task_views(self.blocked_queue@)
    }

    /// The id the next spawned task gets.
    pub closed spec fn next_id(&self) -> u32 {
        self.next_task_id
    }

    /// An empty scheduler.
    pub fn new() -> (s: Self)
        ensures
            s.ready() == Seq::<TaskView>::empty(),
            s.blocked() == Seq::<TaskView>::empty(),
            s.next_id() == 0,
    {
        let s = Scheduler { ready_queue: VecDeque::new(), blocked_queue: Vec::new(), next_task_id: 0 };
        assert(s.ready() =~= Seq::<TaskView>::empty());
        assert(s.blocked() =~= Seq::<TaskView>::empty());
        s
    }

    /// Queues a ready task for `bytecode` at instruction 0 with 256 zeroed
    /// registers, and returns its id.
    pub fn spawn_task(&mut self, bytecode: Vec<u8>) -> (id: u32)
        requires
            old(self).next_id() < u32::MAX,
        ensures
            id == old(self).next_id(),
            final(self).next_id() == old(self).next_id() + 1,
            final(self).ready() == old(self).ready().push(TaskView {
                id,
                status: TaskStatus::Ready,
                bytecode: bytecode@,
                ip: 0,
                registers: Seq::new(256, |i: int| 0u64),
            }),
            final(self).blocked() == old(self).blocked(),
    {
        let task_id = self.next_task_id;
        self.next_task_id = self.next_task_id + 1;
        let mut registers: Vec<u64> = Vec::new();
        let mut i: usize = 0;
        while i < 256
            invariant
                i <= 256,
                registers@ == Seq::new(i as nat, |k: int| 0u64),
            decreases 256 - i,
        {
            registers.push(0);
            assert(registers@ =~= Seq::new((i + 1) as nat, |k: int| 0u64));
            i = i + 1;
        }
        let task = Task { id: task_id, status: TaskStatus::Ready, bytecode, ip: 0, registers };
        let ghost tv = task@;
        self.ready_queue.push_back(task);
        assert(self.ready() =~= old(self).ready().push(tv));
        task_id
    }

    /// Takes the oldest ready task.
    pub fn schedule(&mut self) -> (r: Option<Task>)
        ensures
            old(self).ready().len() == 0 ==> r is None && final(self).ready() == old(self).ready(),
            old(self).ready().len() > 0 ==> (r matches Some(t) && t@ == old(self).ready()[0]
                && final(self).ready() == old(self).ready().drop_first()),
            final(self).blocked() == old(self).blocked(),
            final(self).next_id() == old(self).next_id(),
    {
        let ghost before = self.ready_queue@;
        let r = self.ready_queue.pop_front();
        proof {
            if before.len() > 0 {
                assert(self.ready() =~= old(self).ready().drop_first());
            }
        }
        r
    }

    /// Puts a task back in the ready queue if it is ready (otherwise drops it).
    pub fn resume_task(&mut self, task: Task)
        ensures
            final(self).ready() == (if task.status == TaskStatus::Ready { old(self).ready().push(task@) } else { old(self).ready() }),
            final(self).blocked() == old(self).blocked(),
            final(self).next_id() == old(self).next_id(),
    {
        if task.status == TaskStatus::Ready {
            let ghost tv = task@;
            self.ready_queue.push_back(task);
            assert(self.ready() =~= old(self).ready().push(tv));
        }
    }

    /// Sets a task aside as blocked.
    pub fn block_task(&mut self, task: Task)
        ensures
            final(self).blocked() == old(self).blocked().push(TaskView { status: TaskStatus::Blocked, ..task@ }),
            final(self).ready() == old(self).ready(),
            final(self).next_id() == old(self).next_id(),
    {
        let mut blocked_task = task;
        blocked_task.status = TaskStatus::Blocked;
        let ghost tv = blocked_task@;
        self.blocked_queue.push(blocked_task);
        assert(self.blocked() =~= old(self).blocked().push(tv));
    }

    /// Retires a finished task (nothing is kept of it).
    pub fn complete_task(&mut self, task: Task, exit_code: i32)
        ensures
            *final(self) == *old(self),
    {
    }

    /// The number of ready tasks.
    pub fn queue_length(&self) -> (n: usize)
        ensures
            n == self.ready().len(),
    {
        self.ready_queue.len()
    }
}

impl Default for Scheduler {
    fn default() -> (s: Self)
        ensures
            s.ready() == Seq::<TaskView>::empty(),
            s.blocked() == Seq::<TaskView>::empty(),
            s.next_id() == 0,
    {
        Self::new()
    }
}

} // verus!
