//! Error handling and recovery: a bounded log of runtime errors, panic and
//! resource-exhaustion handling, deadlines, and checkpoints to restore from.

use vstd::prelude::*;
use crate::error::{IoError, IoErrorKind};
use crate::outside::{now_unix_millis, time_hash_id};
use crate::text::{dec, dec_int, push_decimal, push_decimal_i64, string_of, text_concat};

verus! {

/// How serious an error is.
#[derive(Clone, Copy, Debug, PartialEq, Eq, Structural)]
pub enum ErrorSeverity {
    Info,
    Warning,
    Error,
    Critical,
    Unrecoverable,
}

/// An error with where and when it happened.
#[derive(Debug)]
pub struct RuntimeError {
    pub id: u32,
    pub timestamp: u64,
    pub severity: ErrorSeverity,
    pub message: String,
    pub context: String,
    pub stack_trace: Vec<String>,
}

/// A runtime error with its texts as character sequences.
pub struct ErrorView {
    pub id: u32,
    pub timestamp: u64,
    pub severity: ErrorSeverity,
    pub message: Seq<char>,
    pub context: Seq<char>,
    pub stack_trace: Seq<Seq<char>>,
}

impl View for RuntimeError {
    type V = ErrorView;

    open spec fn view(&self) -> ErrorView {
        ErrorView {
            id: self.id,
            timestamp: self.timestamp,
            severity: self.severity,
            message: self.message@,
            context: self.context@,
            stack_trace: self.stack_trace@.map_values(|s: String| s@),
        }
    }
}

fn clone_strings(v: &Vec<String>) -> (r: Vec<String>)
    ensures
        r@.map_values(|s: String| s@) == v@.map_values(|s: String| s@),
{
    let mut r: Vec<String> = Vec::new();
    let mut i: usize = 0;
    while i < v.len()
        invariant
            i <= v@.len(),
            r@.len() == i,
            forall|j: int| 0 <= j < i ==> #[trigger] r@[j]@ == v@[j]@,
        decreases v@.len() - i,
    {
        r.push(v[i].clone());
        i = i + 1;
    }
    assert(r@.map_values(|s: String| s@) =~= v@.map_values(|s: String| s@));
    r
}

impl Clone for RuntimeError {
    fn clone(&self) -> (r: Self)
        ensures
            r@ == self@,
    {
        RuntimeError {
            id: self.id,
            timestamp: self.timestamp,
            severity: self.severity,
            message: self.message.clone(),
            context: self.context.clone(),
            stack_trace: clone_strings(&self.stack_trace),
        }
    }
}

impl RuntimeError {
    /// An error with a fresh id, stamped with the current time, and no
    /// stack trace.
    pub fn new(severity: ErrorSeverity, message: &str, context: &str) -> (e: Self)
        ensures
            e.severity == severity,
            e.message@ == message@,
            e.context@ == context@,
            e.stack_trace@.len() == 0,
    {
        RuntimeError {
            id: time_hash_id(),
            timestamp: now_unix_millis(),
            severity,
            message: string_of(message),
            context: string_of(context),
            stack_trace: Vec::new(),
        }
    }

    /// The error with the given stack trace.
    pub fn with_stack_trace(self, stack_trace: Vec<String>) -> (e: Self)
        ensures
            e@ == (ErrorView { stack_trace: stack_trace@.map_values(|s: String| s@), ..self@ }),
    {
        let mut e = self;
        e.stack_trace = stack_trace;
        e
    }
}

/// A kind of exhausted resource.
#[derive(Clone, Copy, Debug, PartialEq, Eq, Structural)]
pub enum ResourceExhaustion {
    OutOfMemory { requested: usize, available: usize },
    StackOverflow,
    TooManyOpenFiles,
    TooManyConcurrentTasks,
}

/// A point in time by which a task must finish.
#[derive(Clone, Copy, Debug)]
pub struct Deadline {
    pub id: u32,
    pub deadline_ms: u64,
    pub creation_time_ms: u64,
    pub task_id: u32,
}

impl Deadline {
    /// A deadline `timeout_ms` after its creation time `now_ms` (the sum
    /// saturating at `u64::MAX`).
    pub fn starting_at(now_ms: u64, timeout_ms: u64, task_id: u32, id: u32) -> (d: Self)
        ensures
            d.id == id,
            d.creation_time_ms == now_ms,
            d.deadline_ms == (if now_ms + timeout_ms <= u64::MAX { now_ms + timeout_ms } else { u64::MAX as int }),
            d.task_id == task_id,
    {
        Deadline { id, deadline_ms: now_ms.saturating_add(timeout_ms), creation_time_ms: now_ms, task_id }
    }

    /// A deadline `timeout_ms` from now, with a fresh id.
    pub fn new(timeout_ms: u64, task_id: u32) -> (d: Self)
        ensures
            d.task_id == task_id,
            d.deadline_ms == (if d.creation_time_ms + timeout_ms <= u64::MAX {
                d.creation_time_ms + timeout_ms
            } else {
                u64::MAX as int
            }),
    {
        let now = now_unix_millis();
        Self::starting_at(now, timeout_ms, task_id, time_hash_id())
    }

    /// Whether the deadline has passed at time `now_ms`.
    pub fn exceeded_at(&self, now_ms: u64) -> (r: bool)
        ensures
            r == (now_ms >= self.deadline_ms),
    {
        now_ms >= self.deadline_ms
    }

    /// Whether the deadline has passed now.
    pub fn is_exceeded(&self) -> (r: bool)
        ensures
            self.deadline_ms == 0 ==> r,
    {
        self.exceeded_at(now_unix_millis())
    }

    /// The milliseconds left at time `now_ms` (negative once passed), as the
    /// two's-complement difference of the two times.
    pub fn remaining_at(&self, now_ms: u64) -> (r: i64)
        ensures
            r == (self.deadline_ms as i64).wrapping_sub(now_ms as i64),
    {
        (self.deadline_ms as i64).wrapping_sub(now_ms as i64)
    }

    /// The milliseconds left now.
    pub fn remaining_ms(&self) -> (r: i64) {
        self.remaining_at(now_unix_millis())
    }
}

/// A saved execution state.
#[derive(Debug)]
pub struct Checkpoint {
    pub id: u32,
    pub timestamp: u64,
    pub task_id: u32,
    pub instruction_pointer: u64,
    pub registers: Vec<u64>,
    pub memory_snapshot: Vec<u8>,
    pub checkpoint_data: Vec<u8>,
}

/// A checkpoint with its buffers as sequences.
pub struct CheckpointView {
    pub id: u32,
    pub timestamp: u64,
    pub task_id: u32,
    pub instruction_pointer: u64,
    pub registers: Seq<u64>,
    pub memory_snapshot: Seq<u8>,
    pub checkpoint_data: Seq<u8>,
}

impl View for Checkpoint {
    type V = CheckpointView;

    open spec fn view(&self) -> CheckpointView {
        CheckpointView {
            id: self.id,
            timestamp: self.timestamp,
            task_id: self.task_id,
            instruction_pointer: self.instruction_pointer,
            registers: self.registers@,
            memory_snapshot: self.memory_snapshot@,
            checkpoint_data: self.checkpoint_data@,
        }
    }
}

impl Clone for Checkpoint {
    fn clone(&self) -> (r: Self)
        ensures
            r@ == self@,
    {
        Checkpoint {
            id: self.id,
            timestamp: self.timestamp,
            task_id: self.task_id,
            instruction_pointer: self.instruction_pointer,
            registers: self.registers.clone(),
            memory_snapshot: self.memory_snapshot.clone(),
            checkpoint_data: self.checkpoint_data.clone(),
        }
    }
}

impl Checkpoint {
    /// A checkpoint with a fresh id, stamped with the current time, and
    /// empty snapshots.
    pub fn new(task_id: u32, ip: u64, registers: Vec<u64>) -> (c: Self)
        ensures
            c.task_id == task_id,
            c.instruction_pointer == ip,
            c.registers@ == registers@,
            c.memory_snapshot@.len() == 0,
            c.checkpoint_data@.len() == 0,
    {
        Checkpoint {
            id: time_hash_id(),
            timestamp: now_unix_millis(),
            task_id,
            instruction_pointer: ip,
            registers,
            memory_snapshot: Vec::new(),
            checkpoint_data: Vec::new(),
        }
    }
}

/// Counters of the error handler.
#[derive(Clone, Copy, Debug)]
pub struct RecoveryStats {
    pub errors_caught: u64,
    pub panic_recoveries: u64,
    pub resource_exhaustions_handled: u64,
    pub deadlines_enforced: u64,
    pub checkpoints_created: u64,
    pub restores_performed: u64,
}

impl Default for RecoveryStats {
    fn default() -> (s: Self)
        ensures
            s.errors_caught == 0 && s.panic_recoveries == 0 && s.resource_exhaustions_handled == 0,
            s.deadlines_enforced == 0 && s.checkpoints_created == 0 && s.restores_performed == 0,
    {
        RecoveryStats {
            errors_caught: 0,
            panic_recoveries: 0,
            resource_exhaustions_handled: 0,
            deadlines_enforced: 0,
            checkpoints_created: 0,
            restores_performed: 0,
        }
    }
}

/// What an application decides when memory runs out: whether the request
/// can be retried (in which case the exhaustion is not logged). The
/// application implements it; what is proved of a handler that calls it
/// holds for an implementation whose answers are its `retries`.
pub trait OomCallback {
    /// Whether the application retries a request of `requested` bytes when
    /// `available` bytes are left.
    spec fn retries(&self, requested: usize, available: usize) -> bool;

    /// Called with the requested and the available number of bytes; answers
    /// whether the request is retried.
    fn on_out_of_memory(&self, requested: usize, available: usize) -> (r: bool)
        ensures
            r == self.retries(requested, available);
}

/// The message and severity logged for a resource exhaustion.
pub open spec fn exhaustion_report(x: ResourceExhaustion) -> (ErrorSeverity, Seq<char>) {
    match x {
        ResourceExhaustion::OutOfMemory { requested, available } => (
            ErrorSeverity::Unrecoverable,
            "OOM: requested "@ + dec(requested as nat) + ", available "@ + dec(available as nat),
        ),
        ResourceExhaustion::StackOverflow => (ErrorSeverity::Critical, "Stack overflow"@),
        ResourceExhaustion::TooManyOpenFiles => (ErrorSeverity::Error, "Too many open files"@),
        ResourceExhaustion::TooManyConcurrentTasks => (ErrorSeverity::Error, "Too many concurrent tasks"@),
    }
}

} // verus!

verus! {

/// The views of a sequence of errors.
pub open spec fn error_views(s: Seq<RuntimeError>) -> Seq<ErrorView> {
    s.map_values(|e: RuntimeError| e@)
}

/// The views of a sequence of checkpoints.
pub open spec fn checkpoint_views(s: Seq<Checkpoint>) -> Seq<CheckpointView> {
    s.map_values(|c: Checkpoint| c@)
}

/// The log with room made for one more entry under a retention limit of
/// `max`: when it already holds `max` or more entries (and holds any), its
/// oldest entry is dropped.
pub open spec fn retained(s: Seq<ErrorView>, max: nat) -> Seq<ErrorView> {
    if s.len() >= max && s.len() > 0 {
        s.drop_first()
    } else {
        s
    }
}

/// The log after adding `e` under a retention limit of `max`.
pub open spec fn logged(s: Seq<ErrorView>, e: ErrorView, max: nat) -> Seq<ErrorView> {
    retained(s, max).push(e)
}

/// `after` is `before` with one error recorded under a retention limit of
/// `max`, with the given severity, message and context.
pub open spec fn recorded(
    before: Seq<ErrorView>,
    after: Seq<ErrorView>,
    max: nat,
    severity: ErrorSeverity,
    message: Seq<char>,
    context: Seq<char>,
) -> bool {
    &&& after.len() == retained(before, max).len() + 1
    &&& after.drop_last() == retained(before, max)
    &&& after.last().severity == severity
    &&& after.last().message == message
    &&& after.last().context == context
}

/// The retention limit holds whatever records an error: a log of at most
/// `max` entries (at most one when `max` is 0) stays so after one more is
/// recorded.
pub proof fn lemma_retention_bound(s: Seq<ErrorView>, e: ErrorView, max: nat)
    requires
        s.len() <= max || s.len() <= 1,
    ensures
        logged(s, e, max).len() <= max || logged(s, e, max).len() <= 1,
{
}

/// `Some(x)`, built generically so that a boxed callback is stored as it
/// was handed over.
fn some_of<T>(x: T) -> (r: Option<T>)
    ensures
        r == Some(x),
{
    Some(x)
}

/// Keeps errors, deadlines and checkpoints, and counts recoveries.
pub struct ErrorHandler {
    errors: Vec<RuntimeError>,
    deadlines: Vec<Deadline>,
    checkpoints: Vec<Checkpoint>,
    stats: RecoveryStats,
    max_errors_retained: usize,
    oom_callback: Option<Box<dyn OomCallback>>,
}

impl ErrorHandler {
    /// The logged errors, oldest first.
    pub closed spec fn log(&self) -> Seq<ErrorView> {
        error_views(self.errors@)
    }

    /// The active deadlines.
    pub closed spec fn active_deadlines(&self) -> Seq<Deadline> {
        self.deadlines@
    }

    /// The saved checkpoints, oldest first.
    pub closed spec fn saved(&self) -> Seq<CheckpointView> {
        checkpoint_views(self.checkpoints@)
    }

    /// The counters.
    pub closed spec fn counters(&self) -> RecoveryStats {
        self.stats
    }

    /// How many errors `log_error` retains.
    pub closed spec fn retention(&self) -> nat {
        self.max_errors_retained as nat
    }

    /// Whether an out-of-memory callback is registered.
    pub closed spec fn has_oom_callback(&self) -> bool {
        self.oom_callback is Some
    }

    /// Whether the registered out-of-memory callback retries a request of
    /// `requested` bytes when `available` are left (false without one).
    pub closed spec fn oom_retries(&self, requested: usize, available: usize) -> bool {
        match self.oom_callback {
            Some(cb) => (*cb).retries(requested, available),
            None => false,
        }
    }

    /// A handler with nothing logged, retaining up to `max_errors_retained`
    /// logged errors.
    pub fn new(max_errors_retained: usize) -> (h: Self)
        ensures
            h.log() == Seq::<ErrorView>::empty(),
            h.active_deadlines() == Seq::<Deadline>::empty(),
            h.saved() == Seq::<CheckpointView>::empty(),
            h.counters() == (RecoveryStats {
                errors_caught: 0,
                panic_recoveries: 0,
                resource_exhaustions_handled: 0,
                deadlines_enforced: 0,
                checkpoints_created: 0,
                restores_performed: 0,
            }),
            h.retention() == max_errors_retained,
            !h.has_oom_callback(),
    {
        let h = ErrorHandler {
            errors: Vec::new(),
            deadlines: Vec::new(),
            checkpoints: Vec::new(),
            stats: RecoveryStats::default(),
            max_errors_retained,
            oom_callback: None,
        };
        assert(h.log() =~= Seq::<ErrorView>::empty());
        assert(h.saved() =~= Seq::<CheckpointView>::empty());
        h
    }

    /// Registers the out-of-memory callback.
    pub fn set_oom_callback(&mut self, callback: Box<dyn OomCallback>)
        ensures
            final(self).has_oom_callback(),
            forall|requested: usize, available: usize| #[trigger] final(self).oom_retries(requested, available)
                == (*callback).retries(requested, available),
            final(self).log() == old(self).log(),
            final(self).active_deadlines() == old(self).active_deadlines(),
            final(self).saved() == old(self).saved(),
            final(self).counters() == old(self).counters(),
            final(self).retention() == old(self).retention(),
    {
        let ghost given = callback;
        let stored = some_of(callback);
        self.oom_callback = stored;
        assert forall|requested: usize, available: usize| #[trigger] self.oom_retries(requested, available)
            == (*given).retries(requested, available) by {}
    }

    fn push_error(&mut self, e: RuntimeError)
        ensures
            final(self).log() == logged(old(self).log(), e@, old(self).retention()),
            final(self).active_deadlines() == old(self).active_deadlines(),
            final(self).saved() == old(self).saved(),
            final(self).counters() == old(self).counters(),
            final(self).retention() == old(self).retention(),
            final(self).has_oom_callback() == old(self).has_oom_callback(),
    {
        if self.errors.len() >= self.max_errors_retained && self.errors.len() > 0 {
            let _dropped = self.errors.remove(0);
            assert(self.log() =~= old(self).log().drop_first());
        }
        self.errors.push(e);
        assert(self.log() =~= logged(old(self).log(), e@, old(self).retention()));
    }

    /// Logs a panic as a critical error and reports it recovered.
    pub fn handle_panic(&mut self, message: &str) -> (r: Result<bool, IoError>)
        requires
            old(self).counters().panic_recoveries < u64::MAX,
        ensures
            r matches Ok(b) && b,
            recorded(old(self).log(), final(self).log(), old(self).retention(), ErrorSeverity::Critical,
                "PANIC: "@ + message@, "runtime core"@),
            final(self).counters() == (RecoveryStats {
                panic_recoveries: (old(self).counters().panic_recoveries + 1) as u64,
                ..old(self).counters()
            }),
            final(self).active_deadlines() == old(self).active_deadlines(),
            final(self).saved() == old(self).saved(),
            final(self).retention() == old(self).retention(),
    {
        let msg = text_concat("PANIC: ", message);
        let error = RuntimeError::new(ErrorSeverity::Critical, msg.as_str(), "runtime core");
        self.push_error(error);
        self.stats.panic_recoveries = self.stats.panic_recoveries + 1;
        assert(self.log().drop_last() =~= retained(old(self).log(), old(self).retention()));
        Ok(true)
    }

    /// Settles an exhausted resource once the out-of-memory callback has
    /// answered (`callback_retried`; false when no callback ran): an
    /// out-of-memory condition the callback retried is left unlogged;
    /// anything else is logged (see `exhaustion_report`) and counted.
    /// Always reports it handled.
    pub fn settle_resource_exhaustion(&mut self, exhaustion: ResourceExhaustion, callback_retried: bool) -> (r: Result<bool, IoError>)
        requires
            old(self).counters().resource_exhaustions_handled < u64::MAX,
        ensures
            r matches Ok(b) && b,
            final(self).active_deadlines() == old(self).active_deadlines(),
            final(self).saved() == old(self).saved(),
            final(self).retention() == old(self).retention(),
            final(self).has_oom_callback() == old(self).has_oom_callback(),
            if exhaustion is OutOfMemory && callback_retried {
                final(self).log() == old(self).log() && final(self).counters() == old(self).counters()
            } else {
                exhaustion_logged(old(self).log(), final(self).log(), old(self).retention(), old(self).counters(), final(self).counters(), exhaustion)
            },
    {
        let (severity, msg) = match exhaustion {
            ResourceExhaustion::OutOfMemory { requested, available } => {
                if callback_retried {
                    return Ok(true);
                }
                let mut m = string_of("OOM: requested ");
                push_decimal(&mut m, requested as u64);
                m.append(", available ");
                push_decimal(&mut m, available as u64);
                (ErrorSeverity::Unrecoverable, m)
            },
            ResourceExhaustion::StackOverflow => (ErrorSeverity::Critical, string_of("Stack overflow")),
            ResourceExhaustion::TooManyOpenFiles => (ErrorSeverity::Error, string_of("Too many open files")),
            ResourceExhaustion::TooManyConcurrentTasks => (ErrorSeverity::Error, string_of("Too many concurrent tasks")),
        };
        let error = RuntimeError::new(severity, msg.as_str(), "resource_manager");
        self.push_error(error);
        self.stats.resource_exhaustions_handled = self.stats.resource_exhaustions_handled + 1;
        assert(self.log().drop_last() =~= retained(old(self).log(), old(self).retention()));
        Ok(true)
    }

    /// Handles an exhausted resource. On out-of-memory the registered
    /// callback, if any, is asked with the requested and available sizes
    /// whether to retry; a retried request is left unlogged, anything else
    /// is logged and counted (`settle_resource_exhaustion` with its answer).
    pub fn handle_resource_exhaustion(&mut self, exhaustion: ResourceExhaustion) -> (r: Result<bool, IoError>)
        requires
            old(self).counters().resource_exhaustions_handled < u64::MAX,
        ensures
            r matches Ok(b) && b,
            final(self).active_deadlines() == old(self).active_deadlines(),
            final(self).saved() == old(self).saved(),
            final(self).retention() == old(self).retention(),
            final(self).has_oom_callback() == old(self).has_oom_callback(),
            match exhaustion {
                ResourceExhaustion::OutOfMemory { requested, available } if old(self).oom_retries(requested, available) =>
                    final(self).log() == old(self).log() && final(self).counters() == old(self).counters(),
                _ => exhaustion_logged(old(self).log(), final(self).log(), old(self).retention(),
                    old(self).counters(), final(self).counters(), exhaustion),
            },
    {
        let retried = match exhaustion {
            ResourceExhaustion::OutOfMemory { requested, available } => match &self.oom_callback {
                Some(cb) => cb.on_out_of_memory(requested, available),
                None => false,
            },
            _ => false,
        };
        self.settle_resource_exhaustion(exhaustion, retried)
    }
}

} // verus!

verus! {

/// What logging an exhausted resource does: one more error recorded under
/// the retention limit `max`, with the severity and message of
/// `exhaustion_report`, from the resource manager, and one more exhaustion
/// counted.
pub open spec fn exhaustion_logged(
    log_before: Seq<ErrorView>,
    log_after: Seq<ErrorView>,
    max: nat,
    before: RecoveryStats,
    after: RecoveryStats,
    exhaustion: ResourceExhaustion,
) -> bool {
    &&& recorded(log_before, log_after, max, exhaustion_report(exhaustion).0, exhaustion_report(exhaustion).1,
        "resource_manager"@)
    &&& after == (RecoveryStats { resource_exhaustions_handled: (before.resource_exhaustions_handled + 1) as u64, ..before })
}

/// The message logged when a task's deadline is found exceeded, `overdue`
/// milliseconds late.
pub open spec fn overdue_message(task_id: u32, overdue: i64) -> Seq<char> {
    "Deadline exceeded for task "@ + dec(task_id as nat) + " ("@ + dec_int(overdue as int) + "ms overdue)"@
}

/// The deadlines, in order, that have passed at `now_ms`.
pub open spec fn overdue(ds: Seq<Deadline>, now_ms: u64) -> Seq<Deadline>
    decreases ds.len(),
{
    if ds.len() == 0 {
        Seq::empty()
    } else if now_ms >= ds.last().deadline_ms {
        overdue(ds.drop_last(), now_ms).push(ds.last())
    } else {
        overdue(ds.drop_last(), now_ms)
    }
}

/// The deadlines, in order, that have not passed at `now_ms`.
pub open spec fn pending(ds: Seq<Deadline>, now_ms: u64) -> Seq<Deadline>
    decreases ds.len(),
{
    if ds.len() == 0 {
        Seq::empty()
    } else if now_ms < ds.last().deadline_ms {
        pending(ds.drop_last(), now_ms).push(ds.last())
    } else {
        pending(ds.drop_last(), now_ms)
    }
}

/// What enforcing a passed deadline does at `now_ms`: a `TimedOut` error,
/// one more error recorded under the retention limit `max` saying how late
/// the task is, and one more enforcement counted.
pub open spec fn deadline_enforced(
    log_before: Seq<ErrorView>,
    log_after: Seq<ErrorView>,
    max: nat,
    before: RecoveryStats,
    after: RecoveryStats,
    deadline: &Deadline,
    now_ms: u64,
    r: Result<(), IoError>,
) -> bool {
    &&& r is Err && r->Err_0.kind == IoErrorKind::TimedOut && r->Err_0.message@ == "Deadline exceeded"@
    &&& recorded(log_before, log_after, max, ErrorSeverity::Error, overdue_message(
        deadline.task_id,
        0i64.wrapping_sub((deadline.deadline_ms as i64).wrapping_sub(now_ms as i64)),
    ), "deadline_enforcer"@)
    &&& after == (RecoveryStats { deadlines_enforced: (before.deadlines_enforced + 1) as u64, ..before })
}

/// What enforcing a deadline does at `now_ms`: nothing before it passes,
/// `deadline_enforced` after.
pub open spec fn deadline_checked(
    log_before: Seq<ErrorView>,
    log_after: Seq<ErrorView>,
    max: nat,
    before: RecoveryStats,
    after: RecoveryStats,
    deadline: &Deadline,
    now_ms: u64,
    r: Result<(), IoError>,
) -> bool {
    if now_ms < deadline.deadline_ms {
        r is Ok && log_after == log_before && after == before
    } else {
        deadline_enforced(log_before, log_after, max, before, after, deadline, now_ms, r)
    }
}

/// The message reported for an exceeded deadline by `check_deadlines`.
pub open spec fn check_message(task_id: u32) -> Seq<char> {
    "Deadline exceeded (task "@ + dec(task_id as nat) + ")"@
}

impl ErrorHandler {
    /// Fails with `TimedOut` when the deadline has passed at `now_ms`,
    /// logging how late the task is.
    pub fn enforce_deadline_at(&mut self, deadline: &Deadline, now_ms: u64) -> (r: Result<(), IoError>)
        requires
            old(self).counters().deadlines_enforced < u64::MAX,
        ensures
            final(self).active_deadlines() == old(self).active_deadlines(),
            final(self).saved() == old(self).saved(),
            final(self).retention() == old(self).retention(),
            final(self).has_oom_callback() == old(self).has_oom_callback(),
            deadline_checked(old(self).log(), final(self).log(), old(self).retention(), old(self).counters(), final(self).counters(), deadline, now_ms, r),
    {
        if deadline.exceeded_at(now_ms) {
            let overdue = 0i64.wrapping_sub(deadline.remaining_at(now_ms));
            let mut m = string_of("Deadline exceeded for task ");
            push_decimal(&mut m, deadline.task_id as u64);
            m.append(" (");
            push_decimal_i64(&mut m, overdue);
            m.append("ms overdue)");
            assert(m@ =~= overdue_message(deadline.task_id, overdue));
            let error = RuntimeError::new(ErrorSeverity::Error, m.as_str(), "deadline_enforcer");
            self.push_error(error);
            self.stats.deadlines_enforced = self.stats.deadlines_enforced + 1;
            assert(self.log().drop_last() =~= retained(old(self).log(), old(self).retention()));
            return Err(IoError::new(IoErrorKind::TimedOut, "Deadline exceeded"));
        }
        Ok(())
    }

    /// Fails with `TimedOut` when the deadline has passed, logging how late
    /// the task is, against one reading of the clock.
    pub fn enforce_deadline(&mut self, deadline: &Deadline) -> (r: Result<(), IoError>)
        requires
            old(self).counters().deadlines_enforced < u64::MAX,
        ensures
            deadline.deadline_ms == 0 ==> r is Err,
            final(self).active_deadlines() == old(self).active_deadlines(),
            final(self).saved() == old(self).saved(),
            final(self).retention() == old(self).retention(),
            final(self).has_oom_callback() == old(self).has_oom_callback(),
            exists|now_ms: u64| #[trigger] deadline_checked(
                old(self).log(), final(self).log(), old(self).retention(), old(self).counters(), final(self).counters(), deadline, now_ms, r),
    {
        let now_ms = now_unix_millis();
        let r = self.enforce_deadline_at(deadline, now_ms);
        assert(deadline_checked(old(self).log(), self.log(), old(self).retention(), old(self).counters(), self.counters(), deadline, now_ms, r));
        r
    }

    /// Saves a checkpoint and returns its id.
    pub fn create_checkpoint(&mut self, task_id: u32, ip: u64, registers: Vec<u64>) -> (id: u32)
        requires
            old(self).counters().checkpoints_created < u64::MAX,
        ensures
            final(self).saved().len() == old(self).saved().len() + 1,
            final(self).saved().drop_last() == old(self).saved(),
            final(self).saved().last().id == id,
            final(self).saved().last().task_id == task_id,
            final(self).saved().last().instruction_pointer == ip,
            final(self).saved().last().registers == registers@,
            final(self).counters() == (RecoveryStats {
                checkpoints_created: (old(self).counters().checkpoints_created + 1) as u64,
                ..old(self).counters()
            }),
            final(self).log() == old(self).log(),
            final(self).active_deadlines() == old(self).active_deadlines(),
            final(self).retention() == old(self).retention(),
            final(self).has_oom_callback() == old(self).has_oom_callback(),
    {
        let checkpoint = Checkpoint::new(task_id, ip, registers);
        let id = checkpoint.id;
        self.checkpoints.push(checkpoint);
        self.stats.checkpoints_created = self.stats.checkpoints_created + 1;
        assert(self.saved().drop_last() =~= old(self).saved());
        id
    }

    /// A copy of the first saved checkpoint with the given id.
    pub fn restore_checkpoint(&mut self, checkpoint_id: u32) -> (r: Result<Checkpoint, IoError>)
        requires
            old(self).counters().restores_performed < u64::MAX,
        ensures
            final(self).saved() == old(self).saved(),
            final(self).log() == old(self).log(),
            final(self).active_deadlines() == old(self).active_deadlines(),
            final(self).retention() == old(self).retention(),
            final(self).has_oom_callback() == old(self).has_oom_callback(),
            match r {
                Ok(c) => {
                    &&& exists|i: int| 0 <= i < old(self).saved().len() && #[trigger] old(self).saved()[i] == c@
                        && c@.id == checkpoint_id
                        && forall|j: int| 0 <= j < i ==> old(self).saved()[j].id != checkpoint_id
                    &&& final(self).counters() == (RecoveryStats {
                            restores_performed: (old(self).counters().restores_performed + 1) as u64,
                            ..old(self).counters()
                        })
                },
                Err(e) => {
                    &&& forall|i: int| 0 <= i < old(self).saved().len() ==> old(self).saved()[i].id != checkpoint_id
                    &&& e.kind == IoErrorKind::NotFound && e.message@ == "Checkpoint not found"@
                    &&& final(self).counters() == old(self).counters()
                },
            },
    {
        let mut i: usize = 0;
        let mut found = false;
        while i < self.checkpoints.len() && !found
            invariant
                i <= self.checkpoints@.len(),
                forall|j: int| 0 <= j < i ==> self.saved()[j].id != checkpoint_id,
                found ==> i < self.checkpoints@.len() && self.saved()[i as int].id == checkpoint_id,
            decreases self.checkpoints@.len() - i + if found { 0int } else { 1int },
        {
            if self.checkpoints[i].id == checkpoint_id {
                found = true;
            } else {
                i = i + 1;
            }
        }
        if found {
            let c = self.checkpoints[i].clone();
            assert(self.saved()[i as int] == c@);
            self.stats.restores_performed = self.stats.restores_performed + 1;
            return Ok(c);
        }
        Err(IoError::new(IoErrorKind::NotFound, "Checkpoint not found"))
    }

    /// Logs an error, dropping the oldest logged error first when the log
    /// already holds the retention limit (with a limit of 0, the log keeps
    /// the newest error alone).
    pub fn log_error(&mut self, error: RuntimeError)
        requires
            old(self).counters().errors_caught < u64::MAX,
        ensures
            final(self).log() == logged(old(self).log(), error@, old(self).retention()),
            final(self).counters() == (RecoveryStats {
                errors_caught: (old(self).counters().errors_caught + 1) as u64,
                ..old(self).counters()
            }),
            final(self).active_deadlines() == old(self).active_deadlines(),
            final(self).saved() == old(self).saved(),
            final(self).retention() == old(self).retention(),
            final(self).has_oom_callback() == old(self).has_oom_callback(),
    {
        self.push_error(error);
        self.stats.errors_caught = self.stats.errors_caught + 1;
    }

    /// Adds a deadline `timeout_ms` from now for a task and returns its id.
    pub fn set_deadline(&mut self, timeout_ms: u64, task_id: u32) -> (id: u32)
        ensures
            final(self).active_deadlines().len() == old(self).active_deadlines().len() + 1,
            final(self).active_deadlines().drop_last() == old(self).active_deadlines(),
            final(self).active_deadlines().last().id == id,
            final(self).active_deadlines().last().task_id == task_id,
            final(self).log() == old(self).log(),
            final(self).saved() == old(self).saved(),
            final(self).counters() == old(self).counters(),
            final(self).retention() == old(self).retention(),
            final(self).has_oom_callback() == old(self).has_oom_callback(),
    {
        let deadline = Deadline::new(timeout_ms, task_id);
        let id = deadline.id;
        self.deadlines.push(deadline);
        assert(self.active_deadlines().drop_last() =~= old(self).active_deadlines());
        id
    }
}

} // verus!

verus! {

impl ErrorHandler {
    /// Reports an error for each deadline that has passed at `now_ms`, in
    /// order, and drops those deadlines.
    pub fn check_deadlines_at(&mut self, now_ms: u64) -> (r: Vec<RuntimeError>)
        ensures
            r@.len() == overdue(old(self).active_deadlines(), now_ms).len(),
            forall|i: int| 0 <= i < r@.len() ==> {
                &&& (#[trigger] r@[i]).severity == ErrorSeverity::Error
                &&& r@[i].context@ == "deadline_check"@
                &&& r@[i].message@ == check_message(overdue(old(self).active_deadlines(), now_ms)[i].task_id)
            },
            final(self).active_deadlines() == pending(old(self).active_deadlines(), now_ms),
            final(self).log() == old(self).log(),
            final(self).saved() == old(self).saved(),
            final(self).counters() == old(self).counters(),
            final(self).retention() == old(self).retention(),
            final(self).has_oom_callback() == old(self).has_oom_callback(),
    {
        let ghost ds = self.deadlines@;
        let mut exceeded: Vec<RuntimeError> = Vec::new();
        let mut kept: Vec<Deadline> = Vec::new();
        let mut i: usize = 0;
        while i < self.deadlines.len()
            invariant
                ds == self.deadlines@,
                i <= ds.len(),
                exceeded@.len() == overdue(ds.take(i as int), now_ms).len(),
                forall|k: int| 0 <= k < exceeded@.len() ==> {
                    &&& (#[trigger] exceeded@[k]).severity == ErrorSeverity::Error
                    &&& exceeded@[k].context@ == "deadline_check"@
                    &&& exceeded@[k].message@ == check_message(overdue(ds.take(i as int), now_ms)[k].task_id)
                },
                kept@ == pending(ds.take(i as int), now_ms),
            decreases ds.len() - i,
        {
            let d = self.deadlines[i];
            assert(ds.take(i + 1).drop_last() =~= ds.take(i as int));
            assert(ds.take(i + 1).last() == d);
            if d.exceeded_at(now_ms) {
                let mut m = string_of("Deadline exceeded (task ");
                push_decimal(&mut m, d.task_id as u64);
                m.append(")");
                assert(m@ =~= check_message(d.task_id));
                let e = RuntimeError::new(ErrorSeverity::Error, m.as_str(), "deadline_check");
                exceeded.push(e);
            } else {
                kept.push(d);
            }
            i = i + 1;
        }
        assert(ds.take(ds.len() as int) =~= ds);
        self.deadlines = kept;
        exceeded
    }

    /// Reports an error for each deadline that has passed, and drops those
    /// deadlines, against one reading of the clock.
    pub fn check_deadlines(&mut self) -> (r: Vec<RuntimeError>)
        ensures
            exists|now_ms: u64| {
                &&& r@.len() == overdue(old(self).active_deadlines(), now_ms).len()
                &&& forall|i: int| 0 <= i < r@.len() ==> {
                    &&& (#[trigger] r@[i]).severity == ErrorSeverity::Error
                    &&& r@[i].context@ == "deadline_check"@
                    &&& r@[i].message@ == check_message(overdue(old(self).active_deadlines(), now_ms)[i].task_id)
                }
                &&& final(self).active_deadlines() == pending(old(self).active_deadlines(), now_ms)
            },
            final(self).log() == old(self).log(),
            final(self).saved() == old(self).saved(),
            final(self).counters() == old(self).counters(),
            final(self).retention() == old(self).retention(),
            final(self).has_oom_callback() == old(self).has_oom_callback(),
    {
        let now_ms = now_unix_millis();
        self.check_deadlines_at(now_ms)
    }

    /// The counters.
    pub fn stats(&self) -> (s: &RecoveryStats)
        ensures
            *s == self.counters(),
    {
        &self.stats
    }

    /// The latest `limit` logged errors, newest first.
    pub fn recent_errors(&self, limit: usize) -> (r: Vec<&RuntimeError>)
        ensures
            r@.len() == if limit < self.log().len() { limit as int } else { self.log().len() as int },
            forall|i: int| 0 <= i < r@.len() ==> (#[trigger] r@[i])@ == self.log()[self.log().len() - 1 - i],
    {
        let n = self.errors.len();
        assert(self.log().len() == n);
        let mut r: Vec<&RuntimeError> = Vec::new();
        let mut i: usize = 0;
        while i < n && i < limit
            invariant
                n == self.errors@.len(),
                i <= n,
                i <= limit,
                r@.len() == i,
                forall|k: int| 0 <= k < i ==> (#[trigger] r@[k])@ == self.log()[n - 1 - k],
            decreases n - i,
        {
            r.push(&self.errors[n - 1 - i]);
            i = i + 1;
        }
        r
    }

    /// All logged errors, oldest first.
    pub fn all_errors(&self) -> (s: &[RuntimeError])
        ensures
            error_views(s@) == self.log(),
    {
        self.errors.as_slice()
    }

    /// The number of logged errors.
    pub fn error_count(&self) -> (n: usize)
        ensures
            n == self.log().len(),
    {
        self.errors.len()
    }

    /// The number of saved checkpoints.
    pub fn checkpoint_count(&self) -> (n: usize)
        ensures
            n == self.saved().len(),
    {
        self.checkpoints.len()
    }

    /// The number of active deadlines.
    pub fn deadline_count(&self) -> (n: usize)
        ensures
            n == self.active_deadlines().len(),
    {
        self.deadlines.len()
    }

    /// Forgets errors, deadlines and checkpoints (the counters stay).
    pub fn clear(&mut self)
        ensures
            final(self).log() == Seq::<ErrorView>::empty(),
            final(self).active_deadlines() == Seq::<Deadline>::empty(),
            final(self).saved() == Seq::<CheckpointView>::empty(),
            final(self).counters() == old(self).counters(),
            final(self).retention() == old(self).retention(),
            final(self).has_oom_callback() == old(self).has_oom_callback(),
    {
        self.errors.clear();
        self.deadlines.clear();
        self.checkpoints.clear();
        assert(self.log() =~= Seq::<ErrorView>::empty());
        assert(self.saved() =~= Seq::<CheckpointView>::empty());
    }
}

impl Default for ErrorHandler {
    fn default() -> (h: Self)
        ensures
            h.log() == Seq::<ErrorView>::empty(),
            h.retention() == 1000,
            !h.has_oom_callback(),
    {
        Self::new(1000)
    }
}

} // verus!
