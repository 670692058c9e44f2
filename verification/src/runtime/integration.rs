//! The runtime: a scheduler, a collector, the eight effect handlers and
//! the two execution engines, wired together.

use vstd::prelude::*;
use crate::error::{IoError, IoErrorKind};
use crate::runtime::effect_handler_impl::{
    cell_value,
    AsyncHandler, ConcurrencyHandler, EffectHandler, EffectRequest, EffectResponse, ExceptionHandler,
    FFIHandler, GCHandler, IOHandler, RegionHandler, StateHandler, invalid_input,
};
use crate::runtime::executor_impl::{ManagedExecutor, NativeExecutor};
use crate::runtime::gc_impl::{GarbageCollector, ObjView, lists_keys, reachable, size_total, survivors};
use crate::runtime::scheduler_impl::{Scheduler, TaskStatus, TaskView};

verus! {

struct EffectHandlers {
    io: IOHandler,
    state: StateHandler,
    async_: AsyncHandler,
    region: RegionHandler,
    gc: GCHandler,
    exception: ExceptionHandler,
    ffi: FFIHandler,
    concurrency: ConcurrencyHandler,
}

/// The runtime.
pub struct Runtime {
    scheduler: Scheduler,
    pub gc: GarbageCollector,
    effect_handlers: EffectHandlers,
    managed_executor: ManagedExecutor,
    native_executor: NativeExecutor,
}

impl Runtime {
    /// The collector.
    pub closed spec fn heap(&self) -> GarbageCollector {
        self.gc
    }

    /// The state cells of the state handler.
    pub closed spec fn cells(&self) -> Map<u32, u64> {
        self.effect_handlers.state.cells()
    }

    /// The locks held through the concurrency handler.
    pub closed spec fn locks(&self) -> Set<u32> {
        self.effect_handlers.concurrency.held()
    }

    /// The ready tasks.
    pub closed spec fn ready(&self) -> Seq<TaskView> {
        self.scheduler.ready()
    }

    /// The id the next task gets.
    pub closed spec fn next_task(&self) -> u32 {
        self.scheduler.next_id()
    }

    /// The exit code the managed engine reports.
    pub closed spec fn exit_code(&self) -> i32 {
        self.managed_executor.exit()
    }

    /// A runtime with nothing scheduled, an empty heap, no cells and no locks.
    pub fn new() -> (r: Self)
        ensures
            r.heap().wf(),
            r.heap().objs() == Map::<u64, ObjView>::empty(),
            r.heap().root_list() == Seq::<u64>::empty(),
            r.ready() == Seq::<TaskView>::empty(),
            r.next_task() == 0,
            r.cells() == Map::<u32, u64>::empty(),
            r.locks() == Set::<u32>::empty(),
            r.exit_code() == 0,
    {
        Runtime {
            scheduler: Scheduler::new(),
            gc: GarbageCollector::new(),
            effect_handlers: EffectHandlers {
                io: IOHandler,
                state: StateHandler::new(),
                async_: AsyncHandler,
                region: RegionHandler,
                gc: GCHandler,
                exception: ExceptionHandler,
                ffi: FFIHandler,
                concurrency: ConcurrencyHandler::new(),
            },
            managed_executor: ManagedExecutor::new(),
            native_executor: NativeExecutor::new(),
        }
    }

    /// Queues `bytecode` as a task, runs the oldest ready task on the
    /// managed engine and returns its exit code.
    pub fn execute(&mut self, bytecode: &[u8]) -> (r: Result<i32, IoError>)
        requires
            old(self).next_task() < u32::MAX,
        ensures
            r matches Ok(code) && code == old(self).exit_code(),
            final(self).next_task() == old(self).next_task() + 1,
            final(self).ready() == old(self).ready().push(TaskView {
                id: old(self).next_task(),
                status: TaskStatus::Ready,
                bytecode: bytecode@,
                ip: 0,
                registers: Seq::new(256, |i: int| 0u64),
            }).drop_first(),
            final(self).exit_code() == old(self).exit_code(),
            final(self).cells() == old(self).cells(),
            final(self).locks() == old(self).locks(),
            final(self).heap() == old(self).heap(),
    {
        let mut code: Vec<u8> = Vec::new();
        let mut i: usize = 0;
        while i < bytecode.len()
            invariant
                i <= bytecode@.len(),
                code@ == bytecode@.take(i as int),
            decreases bytecode@.len() - i,
        {
            code.push(bytecode[i]);
            assert(code@ =~= bytecode@.take(i + 1));
            i = i + 1;
        }
        assert(code@ =~= bytecode@);
        let _task_id = self.scheduler.spawn_task(code);
        match self.scheduler.schedule() {
            Some(task) => {
                let result = match self.managed_executor.execute(task.bytecode.as_slice()) {
                    Ok(c) => c,
                    Err(e) => return Err(e),
                };
                self.scheduler.complete_task(task, result);
                Ok(result)
            },
            None => Err(IoError::new(IoErrorKind::Other, "No task to schedule")),
        }
    }

    /// Dispatches a request to the handler of its effect.
    pub fn handle_effect(&mut self, request: EffectRequest) -> (r: Result<EffectResponse, IoError>)
        ensures
            final(self).heap() == old(self).heap(),
            final(self).ready() == old(self).ready(),
            final(self).next_task() == old(self).next_task(),
            final(self).exit_code() == old(self).exit_code(),
            match request {
                EffectRequest::IO { .. } => (r matches Ok(EffectResponse::IO { bytes, status }) && bytes == 0 && status == 0)
                    && final(self).cells() == old(self).cells() && final(self).locks() == old(self).locks(),
                EffectRequest::State { cell_id, value, .. } => {
                    &&& r matches Ok(EffectResponse::State { old_value, new_value })
                        && new_value == value
                        && old_value == cell_value(old(self).cells(), cell_id)
                    &&& final(self).cells() == old(self).cells().insert(cell_id, value)
                    &&& final(self).locks() == old(self).locks()
                },
                EffectRequest::Async { task_id, .. } => (r matches Ok(EffectResponse::Async { task_id: t, status })
                    && t == task_id && status@ == "spawned"@)
                    && final(self).cells() == old(self).cells() && final(self).locks() == old(self).locks(),
                EffectRequest::Region { region_id, size, .. } => (r matches Ok(EffectResponse::Region { ptr, size: s })
                    && ptr == 0x1000 + region_id * 0x1000 && s == size)
                    && final(self).cells() == old(self).cells() && final(self).locks() == old(self).locks(),
                EffectRequest::GC { .. } => (r matches Ok(EffectResponse::GC { freed_bytes }) && freed_bytes == 1024)
                    && final(self).cells() == old(self).cells() && final(self).locks() == old(self).locks(),
                EffectRequest::Exception { .. } => (r matches Ok(EffectResponse::Exception { unwind }) && unwind)
                    && final(self).cells() == old(self).cells() && final(self).locks() == old(self).locks(),
                EffectRequest::FFI { .. } => (r matches Ok(EffectResponse::FFI { result }) && result == 0)
                    && final(self).cells() == old(self).cells() && final(self).locks() == old(self).locks(),
                EffectRequest::Concurrency { op, lock_id } => {
                    &&& final(self).cells() == old(self).cells()
                    &&& if op@ == "lock"@ {
                        &&& r matches Ok(EffectResponse::Concurrency { acquired })
                            && acquired == !old(self).locks().contains(lock_id)
                        &&& final(self).locks() == old(self).locks().insert(lock_id)
                    } else if op@ == "unlock"@ {
                        &&& r matches Ok(EffectResponse::Concurrency { acquired }) && !acquired
                        &&& final(self).locks() == old(self).locks().remove(lock_id)
                    } else {
                        r matches Err(e) && invalid_input(e, "Unknown op"@) && final(self).locks() == old(self).locks()
                    }
                },
            },
    {
        match request {
            EffectRequest::IO { .. } => self.effect_handlers.io.handle(request.clone()),
            EffectRequest::State { .. } => self.effect_handlers.state.handle(request.clone()),
            EffectRequest::Async { .. } => self.effect_handlers.async_.handle(request.clone()),
            EffectRequest::Region { .. } => self.effect_handlers.region.handle(request.clone()),
            EffectRequest::GC { .. } => self.effect_handlers.gc.handle(request.clone()),
            EffectRequest::Exception { .. } => self.effect_handlers.exception.handle(request.clone()),
            EffectRequest::FFI { .. } => self.effect_handlers.ffi.handle(request.clone()),
            EffectRequest::Concurrency { .. } => self.effect_handlers.concurrency.handle(request.clone()),
        }
    }

    /// Runs a collection and returns the size freed.
    pub fn collect_garbage(&mut self) -> (freed: usize)
        requires
            old(self).heap().wf(),
            forall|ks: Seq<u64>| lists_keys(ks, old(self).heap().objs()) ==> size_total(old(self).heap().objs(), ks) <= usize::MAX,
        ensures
            final(self).heap().wf(),
            final(self).heap().objs() == survivors(old(self).heap().objs(), old(self).heap().root_list()),
            exists|ks: Seq<u64>| {
                &&& ks.no_duplicates()
                &&& forall|k: u64| ks.contains(k) <==> (old(self).heap().objs().contains_key(k)
                    && !reachable(old(self).heap().objs(), old(self).heap().root_list(), k))
                &&& freed == size_total(old(self).heap().objs(), ks)
            },
            final(self).ready() == old(self).ready(),
    {
        assert(self.heap() == self.gc);
        self.gc.collect()
    }

    /// The total size of the heap objects.
    pub fn heap_size(&self) -> (n: usize)
        requires
            forall|ks: Seq<u64>| lists_keys(ks, self.heap().objs()) ==> size_total(self.heap().objs(), ks) <= usize::MAX,
        ensures
            exists|ks: Seq<u64>| lists_keys(ks, self.heap().objs()) && n == size_total(self.heap().objs(), ks),
    {
        assert(self.heap() == self.gc);
        self.gc.heap_size()
    }

    /// The number of ready tasks.
    pub fn queue_length(&self) -> (n: usize)
        ensures
            n == self.ready().len(),
    {
        self.scheduler.queue_length()
    }
}

impl Default for Runtime {
    fn default() -> (r: Self)
        ensures
            r.heap().wf(),
            r.ready() == Seq::<TaskView>::empty(),
    {
        Self::new()
    }
}

} // verus!
