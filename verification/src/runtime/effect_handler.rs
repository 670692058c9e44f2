//! Effect handlers keyed by effect name: a request names its effect and
//! carries a payload; every handler here acknowledges with status 0, an
//! empty result and a fresh runtime state.

use vstd::prelude::*;
use std::collections::HashMap;

verus! {

/// A request naming its effect (`IO`, `State`, `Async`, `Region`, `GC`,
/// `Exception`, `FFI` or `Concurrency`) with a payload.
#[derive(Debug)]
pub struct EffectRequest {
    pub kind: String,
    pub payload: Vec<u8>,
}

/// The state of a running task: its heap cells, program counter and the
/// effects it waits on.
#[derive(Debug)]
pub struct RuntimeState {
    pub heap: HashMap<u32, Vec<u8>>,
    pub pc: u32,
    pub effects_pending: Vec<String>,
}

impl RuntimeState {
    /// An empty state at program counter 0.
    pub fn new() -> (s: Self)
        ensures
            s.heap@ == Map::<u32, Vec<u8>>::empty(),
            s.pc == 0,
            s.effects_pending@.len() == 0,
    {
        RuntimeState { heap: HashMap::new(), pc: 0, effects_pending: Vec::new() }
    }
}

/// A handler's answer: a status (0 for success), a result and the state
/// to continue with.
#[derive(Debug)]
pub struct EffectResponse {
    pub status: i32,
    pub result: Vec<u8>,
    pub _next_state: RuntimeState,
}

/// Whether a response acknowledges: status 0, no result, an empty state.
pub open spec fn acknowledged(r: EffectResponse) -> bool {
    &&& r.status == 0
    &&& r.result@.len() == 0
    &&& r._next_state.heap@ == Map::<u32, Vec<u8>>::empty()
    &&& r._next_state.pc == 0
    &&& r._next_state.effects_pending@.len() == 0
}

/// A handler for one effect. What is proved of an executor that forwards
/// to a handler holds for a handler whose answers meet its `answers`.
pub trait EffectHandler {
    /// Whether `r` is an answer this handler, in its present state, may
    /// give to `request`.
    spec fn answers(&self, request: EffectRequest, r: Result<EffectResponse, String>) -> bool;

    /// Handles a request.
    fn handle(&mut self, effect: EffectRequest) -> (r: Result<EffectResponse, String>)
        ensures
            old(self).answers(effect, r);
}

fn acknowledge() -> (r: EffectResponse)
    ensures
        acknowledged(r),
{
    EffectResponse { status: 0, result: Vec::new(), _next_state: RuntimeState::new() }
}

/// Handles IO effects.
pub struct IOHandler;

/// Handles state effects.
pub struct StateHandler;

/// Handles async effects.
pub struct AsyncHandler;

/// Handles region effects.
pub struct RegionHandler;

/// Handles GC effects.
pub struct GCHandler;

/// Handles exception effects.
pub struct ExceptionHandler;

/// Handles foreign calls.
pub struct FFIHandler;

/// Handles concurrency effects.
pub struct ConcurrencyHandler;

impl EffectHandler for IOHandler {
    open spec fn answers(&self, request: EffectRequest, r: Result<EffectResponse, String>) -> bool {
        r matches Ok(resp) && acknowledged(resp)
    }

    fn handle(&mut self, effect: EffectRequest) -> (r: Result<EffectResponse, String>)
        ensures
            r matches Ok(resp) && acknowledged(resp),
    {
        Ok(acknowledge())
    }
}

impl EffectHandler for StateHandler {
    open spec fn answers(&self, request: EffectRequest, r: Result<EffectResponse, String>) -> bool {
        r matches Ok(resp) && acknowledged(resp)
    }

    fn handle(&mut self, effect: EffectRequest) -> (r: Result<EffectResponse, String>)
        ensures
            r matches Ok(resp) && acknowledged(resp),
    {
        Ok(acknowledge())
    }
}

impl EffectHandler for AsyncHandler {
    open spec fn answers(&self, request: EffectRequest, r: Result<EffectResponse, String>) -> bool {
        r matches Ok(resp) && acknowledged(resp)
    }

    fn handle(&mut self, effect: EffectRequest) -> (r: Result<EffectResponse, String>)
        ensures
            r matches Ok(resp) && acknowledged(resp),
    {
        Ok(acknowledge())
    }
}

impl EffectHandler for RegionHandler {
    open spec fn answers(&self, request: EffectRequest, r: Result<EffectResponse, String>) -> bool {
        r matches Ok(resp) && acknowledged(resp)
    }

    fn handle(&mut self, effect: EffectRequest) -> (r: Result<EffectResponse, String>)
        ensures
            r matches Ok(resp) && acknowledged(resp),
    {
        Ok(acknowledge())
    }
}

impl EffectHandler for GCHandler {
    open spec fn answers(&self, request: EffectRequest, r: Result<EffectResponse, String>) -> bool {
        r matches Ok(resp) && acknowledged(resp)
    }

    fn handle(&mut self, effect: EffectRequest) -> (r: Result<EffectResponse, String>)
        ensures
            r matches Ok(resp) && acknowledged(resp),
    {
        Ok(acknowledge())
    }
}

impl EffectHandler for ExceptionHandler {
    open spec fn answers(&self, request: EffectRequest, r: Result<EffectResponse, String>) -> bool {
        r matches Ok(resp) && acknowledged(resp)
    }

    fn handle(&mut self, effect: EffectRequest) -> (r: Result<EffectResponse, String>)
        ensures
            r matches Ok(resp) && acknowledged(resp),
    {
        Ok(acknowledge())
    }
}

impl EffectHandler for FFIHandler {
    open spec fn answers(&self, request: EffectRequest, r: Result<EffectResponse, String>) -> bool {
        r matches Ok(resp) && acknowledged(resp)
    }

    fn handle(&mut self, effect: EffectRequest) -> (r: Result<EffectResponse, String>)
        ensures
            r matches Ok(resp) && acknowledged(resp),
    {
        Ok(acknowledge())
    }
}

impl EffectHandler for ConcurrencyHandler {
    open spec fn answers(&self, request: EffectRequest, r: Result<EffectResponse, String>) -> bool {
        r matches Ok(resp) && acknowledged(resp)
    }

    fn handle(&mut self, effect: EffectRequest) -> (r: Result<EffectResponse, String>)
        ensures
            r matches Ok(resp) && acknowledged(resp),
    {
        Ok(acknowledge())
    }
}

} // verus!
