//! The result of solving an answer set program.

use vstd::prelude::*;

verus! {

/// The facts and rules solved, whether they are satisfiable, and the
/// answer set found.
#[derive(Clone, Debug)]
pub struct AspProof {
    pub facts: Vec<String>,
    pub rules: Vec<String>,
    pub satisfiable: bool,
    pub answer_set: Vec<String>,
}

impl Default for AspProof {
    fn default() -> (p: Self)
        ensures
            p.facts@.len() == 0,
            p.rules@.len() == 0,
            !p.satisfiable,
            p.answer_set@.len() == 0,
    {
        AspProof { facts: Vec::new(), rules: Vec::new(), satisfiable: false, answer_set: Vec::new() }
    }
}

} // verus!
