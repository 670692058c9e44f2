//! The eight core effects, their requests and responses, and a handler for
//! each.

use vstd::prelude::*;
use std::collections::HashMap;
use crate::error::{IoError, IoErrorKind};
use crate::text::str_eq;

verus! {

broadcast use vstd::std_specs::hash::group_hash_axioms;

/// A request to perform an effect.
#[derive(Debug)]
pub enum EffectRequest {
    IO { op: String, fd: u32, data: Vec<u8> },
    State { op: String, cell_id: u32, value: u64 },
    Async { op: String, task_id: u32 },
    Region { op: String, region_id: u32, size: u32 },
    GC { op: String },
    Exception { error: String },
    FFI { func_ptr: u64, args: Vec<u64> },
    Concurrency { op: String, lock_id: u32 },
}

/// A request with its text and byte payloads as sequences.
pub enum RequestView {
    IO { op: Seq<char>, fd: u32, data: Seq<u8> },
    State { op: Seq<char>, cell_id: u32, value: u64 },
    Async { op: Seq<char>, task_id: u32 },
    Region { op: Seq<char>, region_id: u32, size: u32 },
    GC { op: Seq<char> },
    Exception { error: Seq<char> },
    FFI { func_ptr: u64, args: Seq<u64> },
    Concurrency { op: Seq<char>, lock_id: u32 },
}

impl View for EffectRequest {
    type V = RequestView;

    open spec fn view(&self) -> RequestView {
        match self {
            EffectRequest::IO { op, fd, data } => RequestView::IO { op: op@, fd: *fd, data: data@ },
            EffectRequest::State { op, cell_id, value } => RequestView::State { op: op@, cell_id: *cell_id, value: *value },
            EffectRequest::Async { op, task_id } => RequestView::Async { op: op@, task_id: *task_id },
            EffectRequest::Region { op, region_id, size } => RequestView::Region { op: op@, region_id: *region_id, size: *size },
            EffectRequest::GC { op } => RequestView::GC { op: op@ },
            EffectRequest::Exception { error } => RequestView::Exception { error: error@ },
            EffectRequest::FFI { func_ptr, args } => RequestView::FFI { func_ptr: *func_ptr, args: args@ },
            EffectRequest::Concurrency { op, lock_id } => RequestView::Concurrency { op: op@, lock_id: *lock_id },
        }
    }
}

impl Clone for EffectRequest {
    fn clone(&self) -> (r: Self)
        ensures
            r@ == self@,
    {
        match self {
            EffectRequest::IO { op, fd, data } => EffectRequest::IO { op: op.clone(), fd: *fd, data: data.clone() },
            EffectRequest::State { op, cell_id, value } => EffectRequest::State { op: op.clone(), cell_id: *cell_id, value: *value },
            EffectRequest::Async { op, task_id } => EffectRequest::Async { op: op.clone(), task_id: *task_id },
            EffectRequest::Region { op, region_id, size } => EffectRequest::Region { op: op.clone(), region_id: *region_id, size: *size },
            EffectRequest::GC { op } => EffectRequest::GC { op: op.clone() },
            EffectRequest::Exception { error } => EffectRequest::Exception { error: error.clone() },
            EffectRequest::FFI { func_ptr, args } => EffectRequest::FFI { func_ptr: *func_ptr, args: args.clone() },
            EffectRequest::Concurrency { op, lock_id } => EffectRequest::Concurrency { op: op.clone(), lock_id: *lock_id },
        }
    }
}

/// The outcome of an effect.
#[derive(Debug)]
pub enum EffectResponse {
    IO { bytes: usize, status: i32 },
    State { old_value: u64, new_value: u64 },
    Async { task_id: u32, status: String },
    Region { ptr: u64, size: u32 },
    GC { freed_bytes: usize },
    Exception { unwind: bool },
    FFI { result: u64 },
    Concurrency { acquired: bool },
}

/// A handler for one kind of effect.
pub trait EffectHandler {
    /// Performs the effect, or fails on a request of another kind.
    fn handle(&mut self, request: EffectRequest) -> Result<EffectResponse, IoError>;
}

/// The value a state cell holds: what was last written, or 0 when unset.
pub open spec fn cell_value(cells: Map<u32, u64>, cell_id: u32) -> u64 {
    if cells.contains_key(cell_id) { cells[cell_id] } else { 0 }
}

/// Law: a state effect reads back what the previous write to the same cell
/// wrote, and a write to one cell leaves every other cell as it was.
pub proof fn lemma_read_after_write(cells: Map<u32, u64>, cell_id: u32, value: u64, other: u32)
    ensures
        cell_value(cells.insert(cell_id, value), cell_id) == value,
        other != cell_id ==> cell_value(cells.insert(cell_id, value), other) == cell_value(cells, other),
{
}

/// Law: locks exclude. Once a lock is taken it is held, so taking it again
/// is refused; once it is released, it can be taken again.
pub proof fn lemma_lock_excludes(held: Set<u32>, lock_id: u32)
    ensures
        held.insert(lock_id).contains(lock_id),
        !held.insert(lock_id).remove(lock_id).contains(lock_id),
{
}

/// Whether an error is an invalid-input error with the given message.
pub open spec fn invalid_input(e: IoError, msg: Seq<char>) -> bool {
    e.kind == IoErrorKind::InvalidInput && e.message@ == msg
}

/// Handles IO requests.
pub struct IOHandler;

/// Handles state cells: each write returns the previous value (0 when unset).
pub struct StateHandler {
    cells: HashMap<u32, u64>,
}

/// Handles spawning of asynchronous tasks.
pub struct AsyncHandler;

/// Handles region allocation.
pub struct RegionHandler;

/// Handles garbage collection requests.
pub struct GCHandler;

/// Handles exceptions by unwinding.
pub struct ExceptionHandler;

/// Handles foreign calls.
pub struct FFIHandler;

/// Handles locks: a lock is acquired only when it is not held.
pub struct ConcurrencyHandler {
    locks: HashMap<u32, bool>,
}

impl StateHandler {
    /// A handler with no cells set.
    pub fn new() -> (h: Self)
        ensures
            h.cells() == Map::<u32, u64>::empty(),
    {
        StateHandler { cells: HashMap::new() }
    }

    /// The values of the cells that have been written.
    pub closed spec fn cells(&self) -> Map<u32, u64> {
        self.cells@
    }

    /// Writes `value` to `cell_id` and returns the previous value (0 when unset).
    pub fn write_cell(&mut self, cell_id: u32, value: u64) -> (old_value: u64)
        ensures
            old_value == cell_value(old(self).cells(), cell_id),
            final(self).cells() == old(self).cells().insert(cell_id, value),
    {
        let prev = match self.cells.get(&cell_id) {
            Some(v) => *v,
            None => 0,
        };
        self.cells.insert(cell_id, value);
        prev
    }
}

impl ConcurrencyHandler {
    /// A handler with no locks held.
    pub fn new() -> (h: Self)
        ensures
            h.held() == Set::<u32>::empty(),
    {
        ConcurrencyHandler { locks: HashMap::new() }
    }

    /// The locks currently held.
    pub closed spec fn held(&self) -> Set<u32> {
        self.locks@.dom()
    }

    /// Takes a lock if it is free; returns whether it was taken.
    pub fn lock(&mut self, lock_id: u32) -> (acquired: bool)
        ensures
            acquired == !old(self).held().contains(lock_id),
            final(self).held() == old(self).held().insert(lock_id),
    {
        let acquired = !self.locks.contains_key(&lock_id);
        if acquired {
            self.locks.insert(lock_id, true);
        }
        proof {
            assert(self.locks@.dom() =~= old(self).locks@.dom().insert(lock_id));
        }
        acquired
    }

    /// Releases a lock (whether or not it was held).
    pub fn unlock(&mut self, lock_id: u32)
        ensures
            final(self).held() == old(self).held().remove(lock_id),
    {
        self.locks.remove(&lock_id);
        proof {
            assert(self.locks@.dom() =~= old(self).locks@.dom().remove(lock_id));
        }
    }
}

impl EffectHandler for IOHandler {
    fn handle(&mut self, request: EffectRequest) -> (r: Result<EffectResponse, IoError>)
        ensures
            request is IO ==> (r matches Ok(EffectResponse::IO { bytes, status }) && bytes == 0 && status == 0),
            !(request is IO) ==> (r matches Err(e) && invalid_input(e, "Not IO"@)),
    {
        match request {
            EffectRequest::IO { .. } => Ok(EffectResponse::IO { bytes: 0, status: 0 }),
            _ => Err(IoError::new(IoErrorKind::InvalidInput, "Not IO")),
        }
    }
}

impl EffectHandler for StateHandler {
    fn handle(&mut self, request: EffectRequest) -> (r: Result<EffectResponse, IoError>)
        ensures
            match request {
                EffectRequest::State { cell_id, value, .. } => {
                    &&& r matches Ok(EffectResponse::State { old_value, new_value })
                        && new_value == value
                        && old_value == cell_value(old(self).cells(), cell_id)
                    &&& final(self).cells() == old(self).cells().insert(cell_id, value)
                },
                _ => r matches Err(e) && invalid_input(e, "Not State"@) && final(self).cells() == old(self).cells(),
            },
    {
        match request {
            EffectRequest::State { cell_id, value, .. } => {
                let old_value = self.write_cell(cell_id, value);
                Ok(EffectResponse::State { old_value, new_value: value })
            },
            _ => Err(IoError::new(IoErrorKind::InvalidInput, "Not State")),
        }
    }
}

impl EffectHandler for AsyncHandler {
    fn handle(&mut self, request: EffectRequest) -> (r: Result<EffectResponse, IoError>)
        ensures
            match request {
                EffectRequest::Async { task_id, .. } => r matches Ok(EffectResponse::Async { task_id: t, status })
                    && t == task_id && status@ == "spawned"@,
                _ => r matches Err(e) && invalid_input(e, "Not Async"@),
            },
    {
        match request {
            EffectRequest::Async { task_id, .. } => Ok(EffectResponse::Async { task_id, status: String::from_str("spawned") }),
            _ => Err(IoError::new(IoErrorKind::InvalidInput, "Not Async")),
        }
    }
}

impl EffectHandler for RegionHandler {
    fn handle(&mut self, request: EffectRequest) -> (r: Result<EffectResponse, IoError>)
        ensures
            match request {
                EffectRequest::Region { region_id, size, .. } => r matches Ok(EffectResponse::Region { ptr, size: s })
                    && ptr == 0x1000 + region_id * 0x1000 && s == size,
                _ => r matches Err(e) && invalid_input(e, "Not Region"@),
            },
    {
        match request {
            EffectRequest::Region { region_id, size, .. } => Ok(EffectResponse::Region {
                ptr: 0x1000 + (region_id as u64 * 0x1000),
                size,
            }),
            _ => Err(IoError::new(IoErrorKind::InvalidInput, "Not Region")),
        }
    }
}

impl EffectHandler for GCHandler {
    fn handle(&mut self, request: EffectRequest) -> (r: Result<EffectResponse, IoError>)
        ensures
            request is GC ==> (r matches Ok(EffectResponse::GC { freed_bytes }) && freed_bytes == 1024),
            !(request is GC) ==> (r matches Err(e) && invalid_input(e, "Not GC"@)),
    {
        match request {
            EffectRequest::GC { .. } => Ok(EffectResponse::GC { freed_bytes: 1024 }),
            _ => Err(IoError::new(IoErrorKind::InvalidInput, "Not GC")),
        }
    }
}

impl EffectHandler for ExceptionHandler {
    fn handle(&mut self, request: EffectRequest) -> (r: Result<EffectResponse, IoError>)
        ensures
            request is Exception ==> (r matches Ok(EffectResponse::Exception { unwind }) && unwind),
            !(request is Exception) ==> (r matches Err(e) && invalid_input(e, "Not Exception"@)),
    {
        match request {
            EffectRequest::Exception { .. } => Ok(EffectResponse::Exception { unwind: true }),
            _ => Err(IoError::new(IoErrorKind::InvalidInput, "Not Exception")),
        }
    }
}

impl EffectHandler for FFIHandler {
    fn handle(&mut self, request: EffectRequest) -> (r: Result<EffectResponse, IoError>)
        ensures
            request is FFI ==> (r matches Ok(EffectResponse::FFI { result }) && result == 0),
            !(request is FFI) ==> (r matches Err(e) && invalid_input(e, "Not FFI"@)),
    {
        match request {
            EffectRequest::FFI { .. } => Ok(EffectResponse::FFI { result: 0 }),
            _ => Err(IoError::new(IoErrorKind::InvalidInput, "Not FFI")),
        }
    }
}

impl EffectHandler for ConcurrencyHandler {
    fn handle(&mut self, request: EffectRequest) -> (r: Result<EffectResponse, IoError>)
        ensures
            match request {
                EffectRequest::Concurrency { op, lock_id } => {
                    if op@ == "lock"@ {
                        &&& r matches Ok(EffectResponse::Concurrency { acquired })
                            && acquired == !old(self).held().contains(lock_id)
                        &&& final(self).held() == old(self).held().insert(lock_id)
                    } else if op@ == "unlock"@ {
                        &&& r matches Ok(EffectResponse::Concurrency { acquired }) && !acquired
                        &&& final(self).held() == old(self).held().remove(lock_id)
                    } else {
                        r matches Err(e) && invalid_input(e, "Unknown op"@) && final(self).held() == old(self).held()
                    }
                },
                _ => r matches Err(e) && invalid_input(e, "Not Concurrency"@) && final(self).held() == old(self).held(),
            },
    {
        match request {
            EffectRequest::Concurrency { op, lock_id } => {
                if str_eq(op.as_str(), "lock") {
                    let acquired = self.lock(lock_id);
                    Ok(EffectResponse::Concurrency { acquired })
                } else if str_eq(op.as_str(), "unlock") {
                    self.unlock(lock_id);
                    Ok(EffectResponse::Concurrency { acquired: false })
                } else {
                    Err(IoError::new(IoErrorKind::InvalidInput, "Unknown op"))
                }
            },
            _ => Err(IoError::new(IoErrorKind::InvalidInput, "Not Concurrency")),
        }
    }
}

} // verus!
