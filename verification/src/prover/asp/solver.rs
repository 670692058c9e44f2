//! The bridge to the answer set solver. No solver backend is linked in:
//! every program comes back as unknown, and no predicate is confirmed.

use vstd::prelude::*;

verus! {

/// The outcome of solving an answer set program.
#[derive(Debug)]
pub enum SolveResult {
    /// A satisfying answer set.
    Satisfiable { answer_set: String },
    /// No answer set exists.
    Unsatisfiable,
    /// The solver could not decide.
    Unknown(String),
}

/// The answer set solver.
pub struct AspSolver;

/// The reason given for every program while no backend is linked in.
pub open spec fn no_backend_message() -> Seq<char> {
    "clingo solver not yet integrated"@
}

impl AspSolver {
    /// A solver.
    pub fn new() -> (s: Self) {
        AspSolver
    }

    /// Solves a program (facts and rules). Without a backend the answer is
    /// always unknown.
    pub fn solve(&self, _program: &str) -> (r: SolveResult)
        ensures
            r is Unknown && r->Unknown_0@ == no_backend_message(),
    {
        SolveResult::Unknown(String::from_str("clingo solver not yet integrated"))
    }

    /// Whether a predicate holds in an answer set. Without a backend to
    /// parse answer sets, no predicate is confirmed.
    pub fn check_predicate(&self, _answer_set: &str, _predicate: &str) -> (b: bool)
        ensures
            !b,
    {
        false
    }
}

} // verus!
