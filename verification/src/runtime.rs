//! The managed runtime: effect handlers and their optimizer, schedulers,
//! garbage collectors, executors, caches, error recovery and profiling.

pub mod effect_handler_impl;
pub mod effect_optimizer;
pub mod proof_cache;
pub mod jit_specializer;
pub mod error_handler;
pub mod effect_handler;
pub mod scheduler;
pub mod scheduler_impl;
pub mod gc;
pub mod gc_impl;
pub mod executor_impl;
pub mod integration;
pub mod managed;
pub mod effect;
pub mod abi;
pub mod profiler;
pub mod config;

use vstd::prelude::*;
use crate::error::IoError;
use crate::runtime::executor_impl::ManagedExecutor;

verus! {

/// Executes verified bytecode on a fresh managed engine and returns its
/// exit code (0).
pub fn execute(bytecode: &[u8]) -> (r: Result<i32, IoError>)
    ensures
        r matches Ok(code) && code == 0,
{
    let mut executor = ManagedExecutor::new();
    executor.execute(bytecode)
}

} // verus!
