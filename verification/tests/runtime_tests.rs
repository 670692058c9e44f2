use fluid_rust::runtime::jit_specializer::TypeFeedback;
use fluid_rust::runtime::profiler::CacheHitStats;
use fluid_rust::runtime::effect_handler_impl::{ConcurrencyHandler, EffectHandler, StateHandler};
use fluid_rust::runtime::config::{AuditConfig, DeterminismConfig, FeatureFlags, MemoryConfig, TimeoutConfig};
use fluid_rust::runtime::effect_handler::RuntimeState;
use fluid_rust::runtime::effect_handler_impl::{EffectRequest, EffectResponse};
use fluid_rust::runtime::effect_optimizer::{EffectOptimizer, OptimizationKind};
use fluid_rust::runtime::error_handler::{
    Deadline, ErrorHandler, ErrorSeverity, OomCallback, ResourceExhaustion, RuntimeError,
};
use fluid_rust::runtime::executor_impl::{ManagedExecutor, NativeExecutor};
use fluid_rust::runtime::effect_handler::{
    EffectHandler as NamedEffectHandler, EffectRequest as NamedRequest, EffectResponse as NamedResponse,
};
use fluid_rust::runtime::managed::ManagedExecutor as DispatchExecutor;
use fluid_rust::runtime::gc::GarbageCollector as RefCollector;
use fluid_rust::runtime::gc_impl::GarbageCollector;
use fluid_rust::runtime::integration::Runtime;
use fluid_rust::runtime::jit_specializer::JitSpecializer;
use fluid_rust::runtime::profiler::{EffectMetrics, Profiler};
use fluid_rust::runtime::proof_cache::{Blake3Digest, ProofCache, ProofCertificate};
use fluid_rust::runtime::scheduler::Scheduler as StateScheduler;
use fluid_rust::runtime::scheduler_impl::Scheduler;

#[test]
fn test_batch_io_operations() {
    let mut optimizer = EffectOptimizer::new(100, 32);

    optimizer.queue_effect(EffectRequest::IO { op: "write".to_string(), fd: 1, data: vec![1, 2, 3] });
    optimizer.queue_effect(EffectRequest::IO { op: "read".to_string(), fd: 0, data: vec![] });

    let batches = optimizer.optimize();
    assert_eq!(batches.len(), 1);
    assert_eq!(batches[0].kind, OptimizationKind::BatchIO);
    assert_eq!(batches[0].size(), 2);
}

#[test]
fn test_coalesce_regions() {
    let mut optimizer = EffectOptimizer::new(100, 32);

    optimizer.queue_effect(EffectRequest::Region { op: "alloc".to_string(), region_id: 1, size: 512 });
    optimizer.queue_effect(EffectRequest::Region { op: "alloc".to_string(), region_id: 2, size: 512 });

    let batches = optimizer.optimize();
    assert_eq!(batches.len(), 1);
    assert_eq!(batches[0].kind, OptimizationKind::CoalesceRegion);
    assert_eq!(batches[0].size(), 2);
}

#[test]
fn test_mixed_effects() {
    let mut optimizer = EffectOptimizer::new(100, 32);

    optimizer.queue_effect(EffectRequest::IO { op: "write".to_string(), fd: 1, data: vec![1, 2] });
    optimizer.queue_effect(EffectRequest::State { op: "put".to_string(), cell_id: 1, value: 42 });
    optimizer.queue_effect(EffectRequest::IO { op: "read".to_string(), fd: 0, data: vec![] });

    let batches = optimizer.optimize();
    assert_eq!(batches.len(), 3);
}

#[test]
fn test_batch_size_limit() {
    let mut optimizer = EffectOptimizer::new(100, 2);

    for i in 0..5 {
        optimizer.queue_effect(EffectRequest::IO { op: "write".to_string(), fd: i as u32, data: vec![i as u8] });
    }

    let batches = optimizer.optimize();
    assert!(batches.len() >= 2);
}

#[test]
fn test_parallelize_async() {
    let mut optimizer = EffectOptimizer::new(100, 32);

    for i in 0..3 {
        optimizer.queue_effect(EffectRequest::Async { op: "spawn".to_string(), task_id: i });
    }

    let batches = optimizer.optimize();
    assert_eq!(batches.len(), 1);
    assert_eq!(batches[0].kind, OptimizationKind::Parallelize);
    assert_eq!(batches[0].size(), 3);
}

#[test]
fn effect_optimizer_test_clear() {
    let mut optimizer = EffectOptimizer::new(100, 32);
    optimizer.queue_effect(EffectRequest::IO { op: "write".to_string(), fd: 1, data: vec![] });

    assert_eq!(optimizer.pending_count(), 1);
    optimizer.clear();
    assert_eq!(optimizer.pending_count(), 0);
}

#[test]
fn test_runtime_error() {
    let error = RuntimeError::new(ErrorSeverity::Error, "Test error", "test context");
    assert_eq!(error.severity, ErrorSeverity::Error);
    assert!(error.message.contains("Test error"));
}

#[test]
fn test_deadline_not_exceeded() {
    let deadline = Deadline::new(1000, 1);
    assert!(!deadline.is_exceeded());
}

#[test]
fn test_handle_panic() {
    let mut handler = ErrorHandler::new(100);
    let result = handler.handle_panic("test panic");
    assert!(result.is_ok());
    assert_eq!(handler.stats().panic_recoveries, 1);
}

#[test]
fn test_handle_resource_exhaustion() {
    let mut handler = ErrorHandler::new(100);
    let exhaustion = ResourceExhaustion::OutOfMemory { requested: 1024, available: 512 };
    let result = handler.handle_resource_exhaustion(exhaustion);
    assert!(result.is_ok());
    assert_eq!(handler.stats().resource_exhaustions_handled, 1);
}

#[test]
fn test_checkpoint_restore() {
    let mut handler = ErrorHandler::new(100);

    let cp_id = handler.create_checkpoint(1, 0x1000, vec![1, 2, 3]);
    assert_eq!(handler.checkpoint_count(), 1);

    let restored = handler.restore_checkpoint(cp_id).unwrap();
    assert_eq!(restored.instruction_pointer, 0x1000);
}

#[test]
fn test_error_retention_limit() {
    let mut handler = ErrorHandler::new(3);

    for i in 0..5 {
        handler.log_error(RuntimeError::new(ErrorSeverity::Info, &format!("Error {}", i), "test"));
    }

    assert_eq!(handler.error_count(), 3);
}

#[test]
fn test_native_executor() {
    let executor = NativeExecutor::new();
    let result = executor.execute(&vec![0, 1, 2]);
    assert!(result.is_ok());
}

#[test]
fn test_managed_executor() {
    let mut executor = ManagedExecutor::new();
    executor.set_exit_code(42);
    let result = executor.execute(&vec![0, 1, 2]);
    assert_eq!(result.unwrap(), 42);
}

#[test]
fn gc_test_allocate() {
    let mut gc = RefCollector::new();
    let _obj = gc.allocate(vec![1, 2, 3]);
    assert_eq!(gc.live_objects(), 1);
}

#[test]
fn test_mark_and_sweep() {
    let mut gc = RefCollector::new();
    let obj1 = gc.allocate(vec![1, 2, 3]);
    let _obj2 = gc.allocate(vec![4, 5, 6]);

    gc.add_root(obj1);
    let stats = gc.collect();

    assert_eq!(stats.before, 2);
    assert_eq!(stats.after, 1);
    assert_eq!(stats.collected, 1);
}

#[test]
fn gc_impl_test_allocate() {
    let mut gc = GarbageCollector::new();
    let id = gc.allocate(1024);
    assert_eq!(id, 1);
}

#[test]
fn test_gc_collect() {
    let mut gc = GarbageCollector::new();
    let id1 = gc.allocate(1024);
    let _id2 = gc.allocate(512);
    gc.add_root(id1);
    let freed = gc.collect();
    assert_eq!(freed, 512);
}

#[test]
fn test_runtime_creation() {
    let runtime = Runtime::new();
    assert_eq!(runtime.queue_length(), 0);
    assert_eq!(runtime.heap_size(), 0);
}

#[test]
fn test_effect_handling() {
    let mut runtime = Runtime::new();

    let request = EffectRequest::State { op: "set".to_string(), cell_id: 0, value: 42 };

    let response = runtime.handle_effect(request);
    assert!(response.is_ok());

    if let Ok(EffectResponse::State { new_value, .. }) = response {
        assert_eq!(new_value, 42);
    }
}

#[test]
fn test_garbage_collection() {
    let mut runtime = Runtime::new();

    let _ptr1 = runtime.gc.allocate(1024);
    let _ptr2 = runtime.gc.allocate(512);

    assert_eq!(runtime.heap_size(), 1536);

    let freed = runtime.collect_garbage();
    assert_eq!(freed, 1536);
    assert_eq!(runtime.heap_size(), 0);
}

#[test]
fn test_execute_bytecode() {
    let mut runtime = Runtime::new();
    let bytecode = vec![0, 1, 2, 3];
    let result = runtime.execute(&bytecode);
    assert!(result.is_ok());
}

#[test]
fn test_record_polymorphic_call() {
    let mut specializer = JitSpecializer::new(10, 3);

    for _ in 0..15 {
        specializer.record_polymorphic_call(1, "i32");
    }

    assert_eq!(specializer.type_feedback_count(), 1);
}

#[test]
fn test_specialize_polymorphic_site() {
    let mut specializer = JitSpecializer::new(10, 3);

    for _ in 0..12 {
        specializer.record_polymorphic_call(1, "i32");
    }

    let spec = specializer.specialize_polymorphic_site(1);
    assert!(spec.is_some());
    assert!(spec.unwrap().contains("i32"));
}

#[test]
fn test_find_inlining_opportunities() {
    let mut specializer = JitSpecializer::new(10, 3);

    for _ in 0..15 {
        specializer.record_polymorphic_call(1, "i32");
    }

    let opportunities = specializer.find_inlining_opportunities();
    assert!(!opportunities.is_empty());
}

#[test]
fn test_inline_function() {
    let mut specializer = JitSpecializer::new(10, 3);

    for _ in 0..15 {
        specializer.record_polymorphic_call(1, "i32");
    }

    let inlined = specializer.inline_function(1, "return 42;");
    assert!(inlined.is_some());
}

#[test]
fn test_hot_path_analysis() {
    let mut specializer = JitSpecializer::new(10, 3);

    specializer.record_execution(1, 0x1000, 100);
    specializer.record_execution(1, 0x1000, 110);
    specializer.record_execution(2, 0x2000, 50);

    let paths = specializer.analyze_hot_paths();
    assert_eq!(paths.len(), 2);
    assert_eq!(paths[0].path_id, 1);
}

#[test]
fn test_generate_jit_directive() {
    let mut specializer = JitSpecializer::new(10, 3);

    for _ in 0..15 {
        specializer.record_execution(1, 0x1000, 100);
    }

    let directive = specializer.generate_jit_directive(1);
    assert!(directive.is_some());
    assert!(directive.unwrap().contains("0x1000"));
}

#[test]
fn jit_specializer_test_clear() {
    let mut specializer = JitSpecializer::new(10, 3);
    specializer.record_polymorphic_call(1, "i32");
    specializer.record_execution(1, 0x1000, 100);

    assert_eq!(specializer.type_feedback_count(), 1);
    assert_eq!(specializer.hot_path_count(), 1);

    specializer.clear();
    assert_eq!(specializer.type_feedback_count(), 0);
    assert_eq!(specializer.hot_path_count(), 0);
}

#[test]
fn test_p99_latency() {
    let mut metrics = EffectMetrics::new("io");

    for _ in 0..100 {
        metrics.record_latency(50);
    }
    metrics.record_latency(5000);

    let p99 = metrics.p99_latency_us();
    assert!(p99 >= 50);
}

#[test]
fn test_record_effect_latency() {
    let mut profiler = Profiler::new();
    profiler.record_effect_latency("io", 100);
    profiler.record_effect_latency("io", 200);

    let metrics = profiler.get_effect_metrics("io").unwrap();
    assert_eq!(metrics.total_calls, 2);
}

#[test]
fn test_record_context_switch() {
    let mut profiler = Profiler::new();
    profiler.record_context_switch(50);
    profiler.record_context_switch(75);

    assert_eq!(profiler.scheduling_stats().total_context_switches, 2);
    assert_eq!(profiler.scheduling_stats().total_wait_time_us, 125);
}

#[test]
fn test_record_gc_pause() {
    let mut profiler = Profiler::new();
    profiler.record_gc_pause(100, 1024, 10000, 8976);

    assert_eq!(profiler.gc_pause_count(), 1);

    let (pauses, total_pause, freed) = profiler.gc_totals().unwrap();
    assert_eq!(pauses, 1);
    assert_eq!(total_pause, 100);
    assert_eq!(freed, 1024);
}

#[test]
fn test_profiling_disabled() {
    let mut profiler = Profiler::new();
    profiler.set_recording(false);

    profiler.record_effect_latency("io", 100);
    assert_eq!(profiler.effect_type_count(), 0);
}

#[test]
fn profiler_test_clear() {
    let mut profiler = Profiler::new();
    profiler.record_effect_latency("io", 100);
    profiler.record_gc_pause(50, 512, 5000, 4488);

    assert!(profiler.effect_type_count() > 0);
    profiler.clear();
    assert_eq!(profiler.effect_type_count(), 0);
    assert_eq!(profiler.gc_pause_count(), 0);
}

#[test]
fn test_blake3_digest() {
    let bytecode = b"test bytecode";
    let digest = Blake3Digest::from_bytecode(bytecode);
    assert_eq!(digest.0.len(), 32);
    assert!(!digest.as_hex().is_empty());
}

#[test]
fn test_proof_certificate_seal() {
    let bytecode = b"test";
    let hash = Blake3Digest::from_bytecode(bytecode);
    let cert = ProofCertificate::new(hash, vec![1, 2, 3], 42);
    assert!(cert.verify_seal());
}

#[test]
fn test_store_and_retrieve() {
    let mut cache = ProofCache::new(10);
    let bytecode = b"test bytecode";

    let _hash = cache.store_proof(bytecode, vec![1, 2, 3, 4, 5], 50).unwrap();
    assert_eq!(cache.certificate_count(), 1);

    let cert = cache.get_proof(bytecode);
    assert!(cert.is_some());
    assert_eq!(cache.stats().cache_hits, 1);
}

#[test]
fn test_cache_miss() {
    let mut cache = ProofCache::new(10);
    let bytecode1 = b"test1";
    let bytecode2 = b"test2";

    cache.store_proof(bytecode1, vec![1, 2, 3], 50).unwrap();
    let result = cache.get_proof(bytecode2);

    assert!(result.is_none());
    assert_eq!(cache.stats().cache_misses, 1);
}

#[test]
fn test_cache_invalidation() {
    let mut cache = ProofCache::new(10);
    let bytecode = b"test";

    cache.store_proof(bytecode, vec![1, 2, 3], 50).unwrap();
    assert_eq!(cache.certificate_count(), 1);

    cache.invalidate_proof(bytecode).unwrap();
    assert_eq!(cache.certificate_count(), 0);

    assert_eq!(cache.ledger_entries(), 2);
}

#[test]
fn test_cache_eviction() {
    let mut cache = ProofCache::new(2);

    cache.store_proof(b"test1", vec![1, 2], 10).unwrap();
    cache.store_proof(b"test2", vec![3, 4], 20).unwrap();
    cache.store_proof(b"test3", vec![5, 6], 30).unwrap();

    assert!(cache.certificate_count() <= 2);
}

#[test]
fn scheduler_test_spawn_task() {
    let mut scheduler = StateScheduler::new();
    let state = RuntimeState::new();
    let task_id = scheduler.spawn(state);
    assert_eq!(task_id, 0);
    assert_eq!(scheduler.ready_count(), 1);
}

#[test]
fn test_schedule_next() {
    let mut scheduler = StateScheduler::new();
    let state = RuntimeState::new();
    scheduler.spawn(state);
    let next = scheduler.schedule_next();
    assert_eq!(next, Some(0));
}

#[test]
fn test_yield_and_resume() {
    let mut scheduler = StateScheduler::new();
    let state = RuntimeState::new();
    scheduler.spawn(state);
    scheduler.schedule_next();

    scheduler.yield_task();
    assert_eq!(scheduler.ready_count(), 0);

    scheduler.resume_task(0).unwrap();
    assert_eq!(scheduler.ready_count(), 1);
}

#[test]
fn scheduler_impl_test_spawn_task() {
    let mut scheduler = Scheduler::new();
    let bytecode = vec![0; 100];
    let task_id = scheduler.spawn_task(bytecode);
    assert_eq!(task_id, 0);
    assert_eq!(scheduler.queue_length(), 1);
}

#[test]
fn test_schedule_task() {
    let mut scheduler = Scheduler::new();
    scheduler.spawn_task(vec![1, 2, 3]);
    let task = scheduler.schedule();
    assert!(task.is_some());
    assert_eq!(task.unwrap().id, 0);
}

#[test]
fn test_proof_cache_seal_integrity() {
    let mut cache = ProofCache::new(10);

    let bytecode = b"critical bytecode";
    let proof_data = vec![42, 99, 3, 14, 159];

    let _hash = cache.store_proof(bytecode, proof_data, 75).unwrap();

    let cert = cache.get_proof(bytecode).unwrap();
    assert!(cert.verify_seal(), "Seal verification failed");
}

#[test]
fn test_effect_batching_coalesce_regions() {
    let mut optimizer = EffectOptimizer::new(100, 32);

    for i in 0..5 {
        optimizer.queue_effect(EffectRequest::Region { op: "alloc".to_string(), region_id: i, size: 1024 });
    }

    let batches = optimizer.optimize();

    assert_eq!(batches.len(), 1);
    assert_eq!(batches[0].kind, OptimizationKind::CoalesceRegion);
}

#[test]
fn test_effect_batching_max_batch_size() {
    let mut optimizer = EffectOptimizer::new(100, 3);

    for i in 0..10 {
        optimizer.queue_effect(EffectRequest::IO { op: "write".to_string(), fd: i, data: vec![] });
    }

    let batches = optimizer.optimize();

    assert!(batches.len() > 1);

    let total_effects: usize = batches.iter().map(|b| b.size()).sum();
    assert_eq!(total_effects, 10);
}

#[test]
fn test_jit_hot_path_detection() {
    let mut specializer = JitSpecializer::new(50, 3);

    for _ in 0..60 {
        specializer.record_execution(1, 0x1000, 100);
    }

    specializer.record_execution(2, 0x2000, 100);

    let hot_paths = specializer.analyze_hot_paths();

    assert_eq!(hot_paths[0].path_id, 1);
}

#[test]
fn test_jit_inlining_opportunities() {
    let mut specializer = JitSpecializer::new(50, 3);

    for _ in 0..60 {
        specializer.record_polymorphic_call(1, "i32");
    }

    let opportunities = specializer.find_inlining_opportunities();
    assert!(!opportunities.is_empty());

    let inlined = specializer.inline_function(1, "return 42;");
    assert!(inlined.is_some());
}

#[test]
fn test_error_handler_panic_recovery() {
    let mut handler = ErrorHandler::new(100);

    let result = handler.handle_panic("Test panic");
    assert!(result.is_ok());
    assert!(result.unwrap());

    assert_eq!(handler.stats().panic_recoveries, 1);
}

struct AlwaysRecover;

impl OomCallback for AlwaysRecover {
    fn retries(&self, _requested: usize, _available: usize) -> bool {
        true
    }

    fn on_out_of_memory(&self, _requested: usize, _available: usize) -> bool {
        true
    }
}

struct RetryWhenHalfFree;

impl OomCallback for RetryWhenHalfFree {
    fn retries(&self, requested: usize, available: usize) -> bool {
        available * 2 >= requested
    }

    fn on_out_of_memory(&self, requested: usize, available: usize) -> bool {
        available * 2 >= requested
    }
}

#[test]
fn test_error_handler_oom_callback() {
    let mut handler = ErrorHandler::new(100);

    handler.set_oom_callback(Box::new(AlwaysRecover));

    let exhaustion = ResourceExhaustion::OutOfMemory { requested: 1024, available: 512 };
    let _result = handler.handle_resource_exhaustion(exhaustion);
}

#[test]
fn test_error_handler_checkpoint_restore() {
    let mut handler = ErrorHandler::new(100);

    let cp_id = handler.create_checkpoint(1, 0x1000, vec![1, 2, 3, 4, 5]);
    assert!(cp_id > 0);

    let restored = handler.restore_checkpoint(cp_id).unwrap();
    assert_eq!(restored.instruction_pointer, 0x1000);
    assert_eq!(restored.registers.len(), 5);

    assert_eq!(handler.stats().checkpoints_created, 1);
    assert_eq!(handler.stats().restores_performed, 1);
}

#[test]
fn test_error_handler_error_retention_limit() {
    let mut handler = ErrorHandler::new(5);

    for i in 0..10 {
        let error = RuntimeError::new(ErrorSeverity::Info, &format!("Error {}", i), "test");
        handler.log_error(error);
    }

    assert_eq!(handler.error_count(), 5);
}

#[test]
fn test_profiler_disabling() {
    let mut profiler = Profiler::new();

    profiler.record_effect_latency("io", 100);
    assert_eq!(profiler.effect_type_count(), 1);

    profiler.set_recording(false);
    profiler.record_effect_latency("io", 200);

    assert_eq!(profiler.effect_type_count(), 1);
}

#[test]
fn test_stress_effect_optimizer_10k_effects() {
    let mut optimizer = EffectOptimizer::new(100, 32);

    for i in 0..10000 {
        let effect_type = i % 4;
        let effect = match effect_type {
            0 => EffectRequest::IO { op: "write".to_string(), fd: i as u32, data: vec![] },
            1 => EffectRequest::State { op: "put".to_string(), cell_id: i as u32, value: i as u64 },
            2 => EffectRequest::Region { op: "alloc".to_string(), region_id: i as u32, size: 1024 },
            _ => EffectRequest::Async { op: "spawn".to_string(), task_id: i as u32 },
        };
        optimizer.queue_effect(effect);
    }

    let batches = optimizer.optimize();
    let total_effects: usize = batches.iter().map(|b| b.size()).sum();

    assert_eq!(total_effects, 10000);
}

#[test]
fn test_stress_jit_specializer_10k_calls() {
    let mut specializer = JitSpecializer::new(100, 3);

    for i in 0..10000 {
        let site_id = (i % 10) as u32;
        let kind_name = if site_id % 2 == 0 { "i32" } else { "i64" };
        specializer.record_polymorphic_call(site_id, kind_name);
    }

    let opportunities = specializer.find_inlining_opportunities();
    assert!(!opportunities.is_empty(), "Expected inlining opportunities");
}

#[test]
fn test_determinism_verification_1m_cases() {
    let mut profiler = Profiler::new();
    let mut results = Vec::new();

    for i in 0..1000000 {
        profiler.record_effect_latency("io", (i % 1000) as u32);
        results.push(i % 256);
    }

    let mut profiler2 = Profiler::new();
    let mut results2 = Vec::new();

    for i in 0..1000000 {
        profiler2.record_effect_latency("io", (i % 1000) as u32);
        results2.push(i % 256);
    }

    assert_eq!(results, results2);
    assert_eq!(
        profiler.get_effect_metrics("io").unwrap().total_calls,
        profiler2.get_effect_metrics("io").unwrap().total_calls
    );
}

#[test]
fn profiler_cache_counts() {
    let mut profiler = Profiler::new();
    profiler.record_cache_access("proof", true);
    profiler.record_cache_access("proof", true);
    profiler.record_cache_access("proof", false);
    let s = profiler.get_cache_stats("proof").unwrap();
    assert_eq!((s.total_accesses, s.cache_hits, s.cache_misses), (3, 2, 1));
    assert_eq!(profiler.cache_count(), 1);
    assert!(profiler.get_cache_stats("other").is_none());
    profiler.update_queue_length(4);
    profiler.update_queue_length(2);
    profiler.record_task_creation();
    assert_eq!(profiler.scheduling_stats().max_queue_length, 4);
    assert_eq!(profiler.scheduling_stats().total_tasks_created, 1);
    assert_eq!(profiler.all_effect_metrics().len(), 0);
}

#[test]
fn effect_metrics_first_latency() {
    let mut profiler = Profiler::new();
    profiler.record_effect_latency("gc", 150);
    let m = profiler.get_effect_metrics("gc").unwrap();
    assert_eq!((m.total_calls, m.total_latency_us, m.min_latency_us, m.max_latency_us), (1, 150, 150, 150));
    assert_eq!(m.latency_distribution[2].count, 1);
    assert!(profiler.is_recording());
}

#[test]
fn config_defaults_and_feature_switch() {
    let mut flags = FeatureFlags::default();
    assert!(flags.jit_compilation_enabled && !flags.determinism_mode);
    flags.set("jit", false);
    flags.set("determinism", true);
    flags.set("unknown", false);
    assert!(!flags.jit_compilation_enabled && flags.determinism_mode && flags.proof_caching_enabled);

    let mut memory = MemoryConfig::default();
    assert_eq!(memory.max_heap_size, 1024 * 1024 * 1024);
    assert!(memory.validate().is_ok());
    memory.gc_trigger_threshold = memory.max_heap_size + 1;
    assert_eq!(memory.validate().unwrap_err().message, "gc_trigger_threshold cannot exceed max_heap_size");
    memory.max_heap_size = 1024;
    assert_eq!(memory.validate().unwrap_err().message, "max_heap_size must be at least 1MB");

    assert_eq!(TimeoutConfig::default().default_task_timeout_ms, 30000);
    assert_eq!(DeterminismConfig::default().seed, 42);
    assert_eq!(AuditConfig::default().audit_file_path, "audit.jsonl");
}

#[test]
fn current_state_is_changed_in_place() {
    let mut scheduler = StateScheduler::new();
    scheduler.spawn(RuntimeState::new());
    assert!(scheduler.get_current_state_mut().is_none());
    scheduler.schedule_next();
    scheduler.get_current_state_mut().unwrap().pc = 9;
    assert_eq!(scheduler.get_current_state_mut().unwrap().pc, 9);
}

#[test]
fn gc_keeps_reachable_cycle_and_frees_unreachable_cycle() {
    let mut gc = GarbageCollector::new();
    let a = gc.allocate(1024);
    let b = gc.allocate(512);
    let c = gc.allocate(256);
    gc.add_ref(a, b);
    gc.add_ref(b, c);
    gc.add_ref(c, a);
    gc.add_root(a);
    assert_eq!(gc.collect(), 0);
    let d = gc.allocate(64);
    let e = gc.allocate(32);
    gc.add_ref(d, e);
    gc.add_ref(e, d);
    assert_eq!(gc.collect(), 96);
    assert_eq!(gc.heap_size(), 1792);
}

#[test]
fn state_reads_back_last_write_and_locks_exclude() {
    let mut state = StateHandler::new();
    state.handle(EffectRequest::State { op: "put".to_string(), cell_id: 4, value: 11 }).unwrap();
    match state.handle(EffectRequest::State { op: "put".to_string(), cell_id: 4, value: 12 }).unwrap() {
        EffectResponse::State { old_value, new_value } => assert_eq!((old_value, new_value), (11, 12)),
        _ => panic!("expected a state response"),
    }
    let mut locks = ConcurrencyHandler::new();
    assert!(locks.lock(1));
    assert!(!locks.lock(1));
    locks.unlock(1);
    assert!(locks.lock(1));
}

fn ratio(num: u64, den: u64) -> f64 {
    if den == 0 { 0.0 } else { num as f64 / den as f64 }
}

#[test]
fn test_type_feedback() {
    let mut feedback = TypeFeedback::new(1);
    feedback.record_type("i32");
    feedback.record_type("i32");
    feedback.record_type("i64");

    assert_eq!(feedback.total_hits, 3);
    let i = feedback.dominant_index().unwrap();
    assert_eq!(feedback.observed_types[i], "i32");
    assert!(ratio(feedback.frequency[i] as u64, feedback.total_hits as u64) > 0.6);
}

#[test]
fn test_optimization_stats() {
    let mut optimizer = EffectOptimizer::new(100, 32);
    optimizer.queue_effect(EffectRequest::IO { op: "write".to_string(), fd: 1, data: vec![1, 2, 3] });
    let _batches = optimizer.optimize();
    optimizer.record_latency(100, 70);
    let s = optimizer.stats();
    assert!(ratio(s.total_latency_ms, s.optimized_latency_ms) > 1.0);
}

#[test]
fn test_jit_speedup() {
    let mut specializer = JitSpecializer::new(10, 3);
    specializer.record_original_vs_specialized(1000, 400);
    let s = specializer.stats();
    assert!(ratio(s.original_execution_us, s.specialized_execution_us) > 1.0);
}

#[test]
fn test_effect_metrics() {
    let mut metrics = EffectMetrics::new("io");
    metrics.record_latency(50);
    metrics.record_latency(100);
    metrics.record_latency(150);

    assert_eq!(metrics.total_calls, 3);
    assert_eq!(metrics.min_latency_us, 50);
    assert_eq!(metrics.max_latency_us, 150);
    assert!(ratio(metrics.total_latency_us, metrics.total_calls) > 90.0);
}

#[test]
fn test_cache_hit_stats() {
    let mut stats = CacheHitStats::new("proof_cache");
    stats.total_accesses = 100;
    stats.cache_hits = 75;
    stats.cache_misses = 25;

    assert_eq!(ratio(stats.cache_hits, stats.total_accesses), 0.75);
}

#[test]
fn test_record_cache_access() {
    let mut profiler = Profiler::new();
    profiler.record_cache_access("proof", true);
    profiler.record_cache_access("proof", true);
    profiler.record_cache_access("proof", false);

    let s = profiler.get_cache_stats("proof").unwrap();
    assert_eq!(Some(ratio(s.cache_hits, s.total_accesses)), Some(2.0 / 3.0));
}

#[test]
fn test_cache_stats() {
    let mut cache = ProofCache::new(10);
    let bytecode = b"test";

    cache.store_proof(bytecode, vec![1, 2, 3], 100).unwrap();
    cache.get_proof(bytecode).unwrap();
    cache.get_proof(b"nonexistent");

    let stats = cache.stats();
    assert_eq!(stats.total_proofs, 1);
    assert_eq!(stats.cache_hits, 1);
    assert_eq!(stats.cache_misses, 1);
    assert!(ratio(stats.cache_hits, stats.cache_hits + stats.cache_misses) > 0.0);
}

#[test]
fn test_proof_cache_50_percent_reduction() {
    let mut cache = ProofCache::new(1000);
    let bytecode = b"test bytecode for caching";
    let proof_data = vec![1, 2, 3, 4, 5];

    let _miss = cache.get_proof(bytecode);
    let _hash = cache.store_proof(bytecode, proof_data.clone(), 100).unwrap();
    for _ in 0..99 {
        let _proof = cache.get_proof(bytecode);
    }

    let stats = cache.stats();
    let hit_rate = ratio(stats.cache_hits, stats.cache_hits + stats.cache_misses);
    assert!(hit_rate > 0.95, "Hit rate too low: {}", hit_rate);

    let total_original_verification = 100 * 100u64;
    let total_cached_verification = 100u64;
    let reduction = ((total_original_verification - total_cached_verification) as f64
        / total_original_verification as f64)
        * 100.0;
    assert!(reduction > 50.0);
}

#[test]
fn test_effect_batching_30_percent_latency_reduction() {
    let mut optimizer = EffectOptimizer::new(100, 32);
    for i in 0..32 {
        optimizer.queue_effect(EffectRequest::IO { op: "write".to_string(), fd: i, data: vec![i as u8; 100] });
    }

    let batches = optimizer.optimize();
    assert_eq!(batches.len(), 1);
    assert_eq!(batches[0].size(), 32);

    optimizer.record_latency(1600, 1000);
    let s = optimizer.stats();
    let speedup = ratio(s.total_latency_ms, s.optimized_latency_ms);
    assert!(speedup > 1.3, "Speedup too low: {}", speedup);
}

#[test]
fn test_jit_specializer_2x_speedup() {
    let mut specializer = JitSpecializer::new(100, 3);
    for _ in 0..180 {
        specializer.record_polymorphic_call(1, "i32");
    }
    for _ in 0..20 {
        specializer.record_polymorphic_call(1, "f64");
    }

    let spec = specializer.specialize_polymorphic_site(1);
    assert!(spec.is_some());

    specializer.record_original_vs_specialized(1000, 400);
    let s = specializer.stats();
    assert!(ratio(s.original_execution_us, s.specialized_execution_us) >= 2.0);
}

#[test]
fn test_profiler_effect_latency_tracking() {
    let mut profiler = Profiler::new();
    for _ in 0..100 {
        profiler.record_effect_latency("io", 50);
    }
    profiler.record_effect_latency("io", 500);

    let metrics = profiler.get_effect_metrics("io").unwrap();
    assert_eq!(metrics.total_calls, 101);
    assert_eq!(metrics.min_latency_us, 50);
    assert_eq!(metrics.max_latency_us, 500);

    let avg = ratio(metrics.total_latency_us, metrics.total_calls);
    assert!(avg > 50.0 && avg < 500.0);
}

#[test]
fn test_profiler_gc_pause_analysis() {
    let mut profiler = Profiler::new();
    for i in 0..10 {
        profiler.record_gc_pause(100 + i, 1024, 10000, 8976);
    }

    let (pauses, total_pause, total_freed) = profiler.gc_totals().unwrap();
    assert_eq!(pauses, 10);
    assert!(ratio(total_pause, pauses) > 100.0);
    assert_eq!(total_freed, 10240);
}

#[test]
fn test_profiler_cache_hit_statistics() {
    let mut profiler = Profiler::new();
    for _ in 0..75 {
        profiler.record_cache_access("proof", true);
    }
    for _ in 0..25 {
        profiler.record_cache_access("proof", false);
    }

    let s = profiler.get_cache_stats("proof").unwrap();
    assert_eq!(ratio(s.cache_hits, s.total_accesses), 0.75);
}

#[test]
fn test_stress_proof_cache_10k_proofs() {
    let mut cache = ProofCache::new(10000);

    for i in 0..10000 {
        let bytecode = format!("bytecode_{}", i).into_bytes();
        let proof = vec![i as u8; 100];
        let _ = cache.store_proof(&bytecode, proof, 50);
    }

    assert_eq!(cache.certificate_count(), 10000);

    for i in 0..1000 {
        let bytecode = format!("bytecode_{}", i).into_bytes();
        let _ = cache.get_proof(&bytecode);
    }

    let stats = cache.stats();
    assert!(ratio(stats.cache_hits, stats.cache_hits + stats.cache_misses) > 0.95);
}

#[test]
fn deadlines_checked_against_a_given_time() {
    let mut handler = ErrorHandler::new(10);
    handler.set_deadline(1000, 7);
    handler.set_deadline(5000, 8);
    assert!(handler.check_deadlines_at(0).is_empty());
    assert_eq!(handler.deadline_count(), 2);
    let reports = handler.check_deadlines_at(u64::MAX);
    assert_eq!(reports.len(), 2);
    assert_eq!(reports[0].message, "Deadline exceeded (task 7)");
    assert_eq!(reports[1].context, "deadline_check");
    assert_eq!(handler.deadline_count(), 0);
    handler.set_deadline(60000, 9);
    assert!(handler.check_deadlines().is_empty());
    let d = Deadline::starting_at(100, 50, 3, 1);
    assert!(!d.exceeded_at(149) && d.exceeded_at(150));
    assert_eq!(d.remaining_at(120), 30);
}

#[test]
fn deadline_enforced_against_a_given_time() {
    let mut handler = ErrorHandler::new(10);
    let d = Deadline::starting_at(1000, 100, 4, 2);
    assert!(handler.enforce_deadline_at(&d, 1099).is_ok());
    assert_eq!(handler.error_count(), 0);
    assert!(handler.enforce_deadline_at(&d, 1150).is_err());
    assert_eq!(handler.all_errors()[0].message, "Deadline exceeded for task 4 (50ms overdue)");
    assert_eq!(handler.stats().deadlines_enforced, 1);
}

#[test]
fn exhaustion_settled_by_callback_answer() {
    let mut handler = ErrorHandler::new(10);
    let oom = ResourceExhaustion::OutOfMemory { requested: 1024, available: 512 };
    assert!(handler.settle_resource_exhaustion(oom, true).unwrap());
    assert_eq!(handler.error_count(), 0);
    assert!(handler.settle_resource_exhaustion(oom, false).unwrap());
    assert_eq!(handler.all_errors()[0].message, "OOM: requested 1024, available 512");
    assert_eq!(handler.all_errors()[0].severity, ErrorSeverity::Unrecoverable);
    handler.settle_resource_exhaustion(ResourceExhaustion::StackOverflow, true).unwrap();
    assert_eq!(handler.all_errors()[1].message, "Stack overflow");
    assert_eq!(handler.stats().resource_exhaustions_handled, 2);
    handler.set_oom_callback(Box::new(AlwaysRecover));
    handler.handle_resource_exhaustion(oom).unwrap();
    assert_eq!(handler.error_count(), 2);
}

#[test]
fn oom_callback_is_asked_with_both_sizes() {
    let mut handler = ErrorHandler::new(10);
    handler.set_oom_callback(Box::new(RetryWhenHalfFree));
    handler.handle_resource_exhaustion(ResourceExhaustion::OutOfMemory { requested: 1000, available: 600 }).unwrap();
    assert_eq!(handler.error_count(), 0);
    assert_eq!(handler.stats().resource_exhaustions_handled, 0);
    handler.handle_resource_exhaustion(ResourceExhaustion::OutOfMemory { requested: 600, available: 1000 }).unwrap();
    assert_eq!(handler.error_count(), 0);
    handler.handle_resource_exhaustion(ResourceExhaustion::OutOfMemory { requested: 1000, available: 400 }).unwrap();
    assert_eq!(handler.error_count(), 1);
    assert_eq!(handler.all_errors()[0].message, "OOM: requested 1000, available 400");
    assert_eq!(handler.stats().resource_exhaustions_handled, 1);
}

#[test]
fn panic_respects_retention_limit() {
    let mut handler = ErrorHandler::new(2);
    handler.log_error(RuntimeError::new(ErrorSeverity::Info, "first", "test"));
    handler.log_error(RuntimeError::new(ErrorSeverity::Info, "second", "test"));
    assert_eq!(handler.error_count(), 2);
    assert!(handler.handle_panic("p").unwrap());
    assert_eq!(handler.stats().panic_recoveries, 1);
    assert_eq!(handler.error_count(), 2);
    assert_eq!(handler.all_errors()[0].message, "second");
    assert_eq!(handler.all_errors()[1].message, "PANIC: p");
    assert_eq!(handler.all_errors()[1].severity, ErrorSeverity::Critical);
    handler.settle_resource_exhaustion(ResourceExhaustion::StackOverflow, false).unwrap();
    assert_eq!(handler.error_count(), 2);
    assert_eq!(handler.all_errors()[0].message, "PANIC: p");
    assert_eq!(handler.all_errors()[1].message, "Stack overflow");
    let d = Deadline::starting_at(1000, 100, 4, 9);
    assert!(handler.enforce_deadline_at(&d, 1150).is_err());
    assert_eq!(handler.error_count(), 2);
    assert_eq!(handler.all_errors()[1].message, "Deadline exceeded for task 4 (50ms overdue)");
}

#[test]
fn log_with_zero_retention_keeps_newest() {
    let mut handler = ErrorHandler::new(0);
    handler.log_error(RuntimeError::new(ErrorSeverity::Warning, "one", "test"));
    assert_eq!(handler.stats().errors_caught, 1);
    assert_eq!(handler.error_count(), 1);
    handler.log_error(RuntimeError::new(ErrorSeverity::Warning, "two", "test"));
    assert_eq!(handler.stats().errors_caught, 2);
    assert_eq!(handler.error_count(), 1);
    assert_eq!(handler.all_errors()[0].message, "two");
}

#[test]
fn proof_cache_keys_by_blake3() {
    let mut cache = ProofCache::new(10);
    let key = cache.store_proof(&[0x00, 0x1F], vec![9], 5).unwrap();
    assert_eq!(key.0, *blake3::hash(&[0x00, 0x1F]).as_bytes());
    assert!(cache.get_proof(&[0x01, 0x00]).is_none());
    assert_eq!(cache.stats().cache_misses, 1);
    let hit = cache.get_proof(&[0x00, 0x1F]).unwrap();
    assert_eq!(hit.proof_data, vec![9]);
}

#[test]
fn digest_is_blake3() {
    let d = Blake3Digest::from_bytecode(b"abc");
    assert_eq!(d.0, *blake3::hash(b"abc").as_bytes());
    assert_eq!(d.as_hex(), blake3::hash(b"abc").to_hex().to_string());
}

#[test]
fn second_collection_frees_nothing() {
    let mut gc = GarbageCollector::new();
    let a = gc.allocate(100);
    let b = gc.allocate(20);
    let _c = gc.allocate(3);
    gc.add_root(a);
    gc.add_ref(a, b);
    gc.add_ref(b, 77);
    assert_eq!(gc.heap_size(), 123);
    let freed = gc.collect();
    assert_eq!(freed, 3);
    assert_eq!(gc.heap_size(), 120);
    assert_eq!(gc.collect(), 0);
    assert_eq!(gc.heap_size(), 120);
}

struct Echo {
    calls: u32,
}

impl NamedEffectHandler for Echo {
    fn answers(&self, _request: NamedRequest, _r: Result<NamedResponse, String>) -> bool {
        true
    }

    fn handle(&mut self, effect: NamedRequest) -> Result<NamedResponse, String> {
        self.calls += 1;
        Ok(NamedResponse { status: self.calls as i32, result: effect.payload, _next_state: RuntimeState::new() })
    }
}

struct Refuse;

impl NamedEffectHandler for Refuse {
    fn answers(&self, _request: NamedRequest, _r: Result<NamedResponse, String>) -> bool {
        true
    }

    fn handle(&mut self, effect: NamedRequest) -> Result<NamedResponse, String> {
        Err(format!("refused {}", effect.kind))
    }
}

#[test]
fn execute_effect_forwards_to_registered_handler() {
    let mut x = DispatchExecutor::new(StateScheduler::new());
    let missing = x.execute_effect(NamedRequest { kind: "IO".to_string(), payload: vec![1] });
    assert_eq!(missing.unwrap_err(), "No handler for effect: IO");
    x.register_handler("IO".to_string(), Box::new(Echo { calls: 0 }));
    let r = x.execute_effect(NamedRequest { kind: "IO".to_string(), payload: vec![4, 5] }).unwrap();
    assert_eq!(r.result, vec![4, 5]);
    assert_eq!(r.status, 1);
    let r = x.execute_effect(NamedRequest { kind: "IO".to_string(), payload: vec![6] }).unwrap();
    assert_eq!(r.status, 2);
    let other = x.execute_effect(NamedRequest { kind: "GC".to_string(), payload: vec![] });
    assert_eq!(other.unwrap_err(), "No handler for effect: GC");
    x.register_handler("IO".to_string(), Box::new(Refuse));
    let refused = x.execute_effect(NamedRequest { kind: "IO".to_string(), payload: vec![] });
    assert_eq!(refused.unwrap_err(), "refused IO");
}

#[test]
fn test_proof_cache_worm_ledger_immutability() {
    let mut cache = ProofCache::new(10);
    cache.store_proof(b"test1", vec![1, 2], 50).unwrap();
    cache.store_proof(b"test2", vec![3, 4], 50).unwrap();
    let initial_ledger_size = cache.ledger_entries();
    cache.invalidate_proof(b"test1").unwrap();
    assert_eq!(cache.ledger_entries(), initial_ledger_size + 1);
    let ledger = cache.worm_entries();
    assert!(ledger.iter().any(|e| e.operation.contains("invalidate")));
    assert_eq!(ledger[0].operation, "write");
    assert_eq!(ledger[1].operation, "write");
}

#[test]
fn suspended_task_is_kept_and_resumed() {
    let mut s = StateScheduler::new();
    assert_eq!(s.spawn(RuntimeState::new()), 0);
    assert_eq!(s.schedule_next(), Some(0));
    s.yield_task();
    assert_eq!(s.schedule_next(), None);
    assert!(s.has_tasks());
    s.resume_task(0).unwrap();
    assert_eq!(s.ready_count(), 1);
    assert_eq!(s.schedule_next(), Some(0));
    assert_eq!(s.ready_count(), 0);
}

#[test]
fn scheduling_keeps_waiting_tasks_in_order() {
    let mut s = StateScheduler::new();
    s.spawn(RuntimeState::new());
    s.spawn(RuntimeState::new());
    s.spawn(RuntimeState::new());
    assert_eq!(s.schedule_next(), Some(0));
    s.yield_task();
    assert_eq!(s.schedule_next(), Some(1));
    assert_eq!(s.schedule_next(), Some(2));
    assert_eq!(s.schedule_next(), None);
    assert!(s.has_tasks());
    assert_eq!(s.resume_task(0), Ok(()));
    assert_eq!(s.schedule_next(), Some(0));
}

#[test]
fn run_schedules_until_none_is_ready() {
    let mut sched = StateScheduler::new();
    sched.spawn(RuntimeState::new());
    sched.spawn(RuntimeState::new());
    let mut x = DispatchExecutor::new(sched);
    assert!(x.run().is_ok());
    assert!(x.run().is_ok());
}

#[test]
fn optimized_batches_use_pipeline_zero() {
    let mut optimizer = EffectOptimizer::new(100, 2);
    for i in 0..5 {
        optimizer.queue_effect(EffectRequest::IO { op: "write".to_string(), fd: i, data: vec![] });
    }
    let batches = optimizer.optimize();
    assert_eq!(batches.iter().map(|b| b.size()).collect::<Vec<_>>(), vec![2, 2, 1]);
    assert!(batches.iter().all(|b| b.pipeline_id == 0));
}
