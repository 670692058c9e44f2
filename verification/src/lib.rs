//! Fluid Rust: a proof-carrying compiler pipeline (lexer, parser, RMIR
//! codec and state machine), a discrete proof engine front end (ASP facts,
//! SMT constraints, certificate checking) and a managed runtime (effect
//! handlers, schedulers, garbage collectors, caches and optimizers).

pub mod text;
pub mod outside;
pub mod timestamp;
pub mod error;
pub mod compiler;
pub mod runtime;
pub mod prover;

use vstd::prelude::*;

verus! {

} // verus!
