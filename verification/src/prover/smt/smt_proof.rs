//! The result of solving SMT constraints.

use vstd::prelude::*;

verus! {

/// The assertions solved, whether they are satisfiable, and a model as
/// (variable, value) pairs with distinct names.
#[derive(Clone, Debug)]
pub struct SmtProof {
    pub assertions: Vec<String>,
    pub satisfiable: bool,
    pub model: Vec<(String, String)>,
}

impl Default for SmtProof {
    fn default() -> (p: Self)
        ensures
            p.assertions@.len() == 0,
            !p.satisfiable,
            p.model@.len() == 0,
    {
        SmtProof { assertions: Vec::new(), satisfiable: false, model: Vec::new() }
    }
}

} // verus!
