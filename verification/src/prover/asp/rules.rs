//! The answer set rules that enforce the ownership, region, capability and
//! effect invariants: integrity constraints over the extracted facts.

use vstd::prelude::*;

verus! {

/// Constraints on ownership: one owner at a time, no ownership after
/// consumption.
pub const OWNERSHIP_RULES: &'static str = "
% Invariant: No two threads own the same value at the same time
:- owns(V, T1, TS), owns(V, T2, TS), T1 != T2.

% Invariant: Once consumed, cannot be owned again
% (If a value is in the consumed set, no subsequent owns fact should exist)
% [This requires tracking consumed values in facts, e.g., consumed(V, TS)]
:- owns(V, T, TS1), consumed(V, TS2), TS2 < TS1.
";

/// Constraints on the region lifecycle.
pub const REGION_RULES: &'static str = "
% Invariant: Region lifecycle is unentered -> active -> closed
% [Enforce via ASP constraints that check state transitions]

% Invariant: All allocations must be deallocated before region closes
:- region_status(R, TS_close, closed),
   allocated_in(P, R, TS_alloc),
   TS_alloc < TS_close,
   not deallocated(P, TS_close).

% Invariant: Cannot allocate in unentered region
:- allocated_in(P, R, TS),
   region_status(R, TS, unentered).

% Invariant: Cannot allocate in closed region
:- allocated_in(P, R, TS),
   region_status(R, TS, closed).
";

/// Constraints on capabilities.
pub const CAPABILITY_RULES: &'static str = "
% Invariant: At most one thread has write capability for a resource
:- capability(V, write, TS),
   owns(V, T1, TS),
   owns(V, T2, TS),
   T1 != T2.

% Invariant: Write capability is linear (exactly one holder)
% [Enforced implicitly if owns predicate is well-formed]

% Invariant: Read capabilities are shared (multiple threads can own)
% [No explicit constraint needed if we allow multiple owns facts with \"shared\" mode]
";

/// Constraints on effects.
pub const EFFECT_RULES: &'static str = "
% Invariant: Effect preconditions are verified
% [Effect-specific preconditions should be added as facts]
% Example: effect_precondition(io_write, file_open).
:- effect_emitted(E, TS),
   effect_precondition(E, Pre),
   not precondition_satisfied(Pre, TS).

% Invariant: Effects are ordered consistently
% [If two effects conflict, they cannot both occur;
%  this would be checked via a serialization order]
";

/// The complete rule set: each group under its heading.
pub open spec fn rule_set() -> Seq<char> {
    "% ============ OWNERSHIP RULES ============\n\n"@ + OWNERSHIP_RULES@
        + "\n% ============ REGION LIFECYCLE RULES ============\n\n"@ + REGION_RULES@
        + "\n% ============ CAPABILITY RULES ============\n\n"@ + CAPABILITY_RULES@
        + "\n% ============ EFFECT RULES ============\n\n"@ + EFFECT_RULES@
}

/// The ownership constraints.
pub fn ownership_rules() -> (r: &'static str)
    ensures
        r@ == OWNERSHIP_RULES@,
{
    OWNERSHIP_RULES
}

/// The region lifecycle constraints.
pub fn region_rules() -> (r: &'static str)
    ensures
        r@ == REGION_RULES@,
{
    REGION_RULES
}

/// The capability constraints.
pub fn capability_rules() -> (r: &'static str)
    ensures
        r@ == CAPABILITY_RULES@,
{
    CAPABILITY_RULES
}

/// The effect constraints.
pub fn effect_rules() -> (r: &'static str)
    ensures
        r@ == EFFECT_RULES@,
{
    EFFECT_RULES
}

/// Generates the complete rule set.
pub fn generate_rules() -> (r: String)
    ensures
        r@ == rule_set(),
{
    let mut rules = String::new();
    rules.append("% ============ OWNERSHIP RULES ============\n\n");
    rules.append(ownership_rules());
    rules.append("\n% ============ REGION LIFECYCLE RULES ============\n\n");
    rules.append(region_rules());
    rules.append("\n% ============ CAPABILITY RULES ============\n\n");
    rules.append(capability_rules());
    rules.append("\n% ============ EFFECT RULES ============\n\n");
    rules.append(effect_rules());
    assert(rules@ =~= rule_set());
    rules
}

/// The rules alone, for inclusion in a larger program.
pub fn get_rule_set() -> (r: String)
    ensures
        r@ == rule_set(),
{
    generate_rules()
}

} // verus!
