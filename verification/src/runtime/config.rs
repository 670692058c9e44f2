//! Production configuration parts that hold no floating-point values:
//! feature flags, memory limits, timeouts, determinism and audit settings,
//! with their defaults, the feature switch by name, and the memory checks.

use vstd::prelude::*;
use crate::error::{IoError, IoErrorKind};
use crate::text::str_eq;

verus! {

/// Runtime features that can be switched on and off.
#[derive(Clone, Copy, Debug)]
pub struct FeatureFlags {
    pub proof_caching_enabled: bool,
    pub effect_batching_enabled: bool,
    pub jit_compilation_enabled: bool,
    pub profiling_enabled: bool,
    pub determinism_mode: bool,
    pub checkpoint_recovery_enabled: bool,
    pub deadline_enforcement_enabled: bool,
}

/// What switching feature `name` to `enabled` does to the flags; an
/// unknown name changes nothing.
pub open spec fn with_feature_set(f: FeatureFlags, name: Seq<char>, enabled: bool) -> FeatureFlags {
    if name == "proof_caching"@ {
        FeatureFlags { proof_caching_enabled: enabled, ..f }
    } else if name == "effect_batching"@ {
        FeatureFlags { effect_batching_enabled: enabled, ..f }
    } else if name == "jit"@ {
        FeatureFlags { jit_compilation_enabled: enabled, ..f }
    } else if name == "profiling"@ {
        FeatureFlags { profiling_enabled: enabled, ..f }
    } else if name == "determinism"@ {
        FeatureFlags { determinism_mode: enabled, ..f }
    } else if name == "checkpoints"@ {
        FeatureFlags { checkpoint_recovery_enabled: enabled, ..f }
    } else if name == "deadlines"@ {
        FeatureFlags { deadline_enforcement_enabled: enabled, ..f }
    } else {
        f
    }
}

impl FeatureFlags {
    /// Switches a feature by name: "proof_caching", "effect_batching",
    /// "jit", "profiling", "determinism", "checkpoints" or "deadlines".
    /// Other names are ignored.
    pub fn set(&mut self, feature: &str, enabled: bool)
        ensures
            *final(self) == with_feature_set(*old(self), feature@, enabled),
    {
        if str_eq(feature, "proof_caching") {
            self.proof_caching_enabled = enabled;
        } else if str_eq(feature, "effect_batching") {
            self.effect_batching_enabled = enabled;
        } else if str_eq(feature, "jit") {
            self.jit_compilation_enabled = enabled;
        } else if str_eq(feature, "profiling") {
            self.profiling_enabled = enabled;
        } else if str_eq(feature, "determinism") {
            self.determinism_mode = enabled;
        } else if str_eq(feature, "checkpoints") {
            self.checkpoint_recovery_enabled = enabled;
        } else if str_eq(feature, "deadlines") {
            self.deadline_enforcement_enabled = enabled;
        }
    }
}

impl Default for FeatureFlags {
    /// Everything on except determinism mode.
    fn default() -> (f: Self)
        ensures
            f == (FeatureFlags {
                proof_caching_enabled: true,
                effect_batching_enabled: true,
                jit_compilation_enabled: true,
                profiling_enabled: true,
                determinism_mode: false,
                checkpoint_recovery_enabled: true,
                deadline_enforcement_enabled: true,
            }),
    {
        FeatureFlags {
            proof_caching_enabled: true,
            effect_batching_enabled: true,
            jit_compilation_enabled: true,
            profiling_enabled: true,
            determinism_mode: false,
            checkpoint_recovery_enabled: true,
            deadline_enforcement_enabled: true,
        }
    }
}

/// Memory limits, in bytes.
#[derive(Clone, Copy, Debug)]
pub struct MemoryConfig {
    pub max_heap_size: usize,
    pub max_stack_size: usize,
    pub gc_trigger_threshold: usize,
    pub max_proof_cache_size: usize,
    /// Per region.
    pub region_alloc_limit: usize,
}

/// The smallest heap a configuration may have: 1 MiB.
pub const MIN_HEAP_SIZE: usize = 1048576;

impl MemoryConfig {
    /// Checks the limits for consistency: the heap holds at least 1 MiB and
    /// the collector's trigger does not exceed the heap.
    pub fn validate(&self) -> (r: Result<(), IoError>)
        ensures
            self.max_heap_size < MIN_HEAP_SIZE ==> r is Err && r->Err_0.kind == IoErrorKind::InvalidInput
                && r->Err_0.message@ == "max_heap_size must be at least 1MB"@,
            self.max_heap_size >= MIN_HEAP_SIZE && self.gc_trigger_threshold > self.max_heap_size ==> r is Err
                && r->Err_0.kind == IoErrorKind::InvalidInput
                && r->Err_0.message@ == "gc_trigger_threshold cannot exceed max_heap_size"@,
            self.max_heap_size >= MIN_HEAP_SIZE && self.gc_trigger_threshold <= self.max_heap_size ==> r is Ok,
    {
        if self.max_heap_size < MIN_HEAP_SIZE {
            return Err(IoError::new(IoErrorKind::InvalidInput, "max_heap_size must be at least 1MB"));
        }
        if self.gc_trigger_threshold > self.max_heap_size {
            return Err(IoError::new(IoErrorKind::InvalidInput, "gc_trigger_threshold cannot exceed max_heap_size"));
        }
        Ok(())
    }
}

impl Default for MemoryConfig {
    /// A 1 GiB heap, 8 MiB stack, collection at 512 MiB, a 128 MiB proof
    /// cache and 256 MiB per region.
    fn default() -> (m: Self)
        ensures
            m == (MemoryConfig {
                max_heap_size: 1073741824,
                max_stack_size: 8388608,
                gc_trigger_threshold: 536870912,
                max_proof_cache_size: 134217728,
                region_alloc_limit: 268435456,
            }),
    {
        MemoryConfig {
            max_heap_size: 1073741824,
            max_stack_size: 8388608,
            gc_trigger_threshold: 536870912,
            max_proof_cache_size: 134217728,
            region_alloc_limit: 268435456,
        }
    }
}

/// Timeouts, in milliseconds.
#[derive(Clone, Copy, Debug)]
pub struct TimeoutConfig {
    pub default_task_timeout_ms: u64,
    pub default_effect_timeout_ms: u64,
    pub gc_timeout_ms: u64,
    pub proof_verification_timeout_ms: u64,
    pub checkpoint_save_timeout_ms: u64,
}

impl Default for TimeoutConfig {
    /// 30 s per task, 5 s per effect, 10 s per collection, 60 s per proof
    /// check and 5 s per checkpoint.
    fn default() -> (t: Self)
        ensures
            t == (TimeoutConfig {
                default_task_timeout_ms: 30000,
                default_effect_timeout_ms: 5000,
                gc_timeout_ms: 10000,
                proof_verification_timeout_ms: 60000,
                checkpoint_save_timeout_ms: 5000,
            }),
    {
        TimeoutConfig {
            default_task_timeout_ms: 30000,
            default_effect_timeout_ms: 5000,
            gc_timeout_ms: 10000,
            proof_verification_timeout_ms: 60000,
            checkpoint_save_timeout_ms: 5000,
        }
    }
}

/// Determinism control.
#[derive(Clone, Copy, Debug)]
pub struct DeterminismConfig {
    pub strict_determinism: bool,
    pub seed: u64,
    pub verify_determinism: bool,
    pub determinism_check_interval: u32,
}

impl Default for DeterminismConfig {
    /// Not strict, seed 42, no verification, checks every 1000 steps.
    fn default() -> (d: Self)
        ensures
            d == (DeterminismConfig {
                strict_determinism: false,
                seed: 42,
                verify_determinism: false,
                determinism_check_interval: 1000,
            }),
    {
        DeterminismConfig { strict_determinism: false, seed: 42, verify_determinism: false, determinism_check_interval: 1000 }
    }
}

/// Audit trail settings.
#[derive(Clone, Debug)]
pub struct AuditConfig {
    pub audit_enabled: bool,
    pub log_all_effects: bool,
    pub log_all_proofs: bool,
    pub log_gc_events: bool,
    pub audit_file_path: String,
    pub audit_buffer_size: usize,
}

impl Default for AuditConfig {
    /// Auditing on, proofs and collector events logged, effects not, into
    /// `audit.jsonl` through a buffer of 10000 records.
    fn default() -> (a: Self)
        ensures
            a.audit_enabled,
            !a.log_all_effects,
            a.log_all_proofs,
            a.log_gc_events,
            a.audit_file_path@ == "audit.jsonl"@,
            a.audit_buffer_size == 10000,
    {
        AuditConfig {
            audit_enabled: true,
            log_all_effects: false,
            log_all_proofs: true,
            log_gc_events: true,
            audit_file_path: String::from_str("audit.jsonl"),
            audit_buffer_size: 10000,
        }
    }
}

} // verus!
