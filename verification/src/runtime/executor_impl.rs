//! Execution engines: a native engine and a managed interpreter with
//! registers and an exit code.

use vstd::prelude::*;
use crate::error::IoError;

verus! {

/// The native engine.
pub struct NativeExecutor;

impl NativeExecutor {
    /// A native engine.
    pub fn new() -> (e: Self) {
        NativeExecutor
    }

    /// Runs bytecode natively; it always succeeds with exit code 0.
    pub fn execute(&self, bytecode: &[u8]) -> (r: Result<i32, IoError>)
        ensures
            r matches Ok(code) && code == 0,
    {
        Ok(0)
    }
}

/// The managed interpreter.
pub struct ManagedExecutor {
    ip: u32,
    registers: Vec<u64>,
    exit_code: i32,
}

impl ManagedExecutor {
    /// The exit code the next run reports.
    pub closed spec fn exit(&self) -> i32 {
        self.exit_code
    }

    /// The interpreter's registers.
    pub closed spec fn register_file(&self) -> Seq<u64> {
        self.registers@
    }

    /// An interpreter at instruction 0 with 256 zeroed registers and exit code 0.
    pub fn new() -> (e: Self)
        ensures
            e.exit() == 0,
            e.register_file() == Seq::new(256, |i: int| 0u64),
    {
        let mut registers: Vec<u64> = Vec::new();
        let mut i: usize = 0;
        while i < 256
            invariant
                i <= 256,
                registers@ == Seq::new(i as nat, |k: int| 0u64),
            decreases 256 - i,
        {
            registers.push(0);
            assert(registers@ =~= Seq::new((i + 1) as nat, |k: int| 0u64));
            i = i + 1;
        }
        ManagedExecutor { ip: 0, registers, exit_code: 0 }
    }

    /// Runs bytecode and reports the current exit code.
    pub fn execute(&mut self, bytecode: &[u8]) -> (r: Result<i32, IoError>)
        ensures
            r matches Ok(code) && code == old(self).exit(),
            *final(self) == *old(self),
    {
        Ok(self.exit_code)
    }

    /// Sets the exit code.
    pub fn set_exit_code(&mut self, code: i32)
        ensures
            final(self).exit() == code,
            final(self).register_file() == old(self).register_file(),
    {
        self.exit_code = code;
    }
}

impl Default for NativeExecutor {
    fn default() -> (e: Self) {
        Self::new()
    }
}

impl Default for ManagedExecutor {
    fn default() -> (e: Self)
        ensures
            e.exit() == 0,
    {
        Self::new()
    }
}

} // verus!
