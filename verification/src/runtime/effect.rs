//! The lifecycle of an effect at run time.

use vstd::prelude::*;

verus! {

/// A state change caused by handling an effect.
#[derive(Debug, Clone)]
pub struct StateChange {
    pub before: String,
    pub after: String,
}

/// Where an effect is in its lifecycle.
#[derive(Debug, Clone, Copy, PartialEq, Eq, Structural)]
pub enum EffectPhase {
    Pending,
    InProgress,
    Complete,
    Failed,
}

} // verus!
