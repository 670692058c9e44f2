//! ASP fact extraction: ground facts about ownership, regions,
//! capabilities and effects, rendered as an answer set program.

use vstd::prelude::*;
use crate::error::{IoError, IoErrorKind};
use crate::prover::asp::asp_proof::AspProof;
use crate::prover::asp::solver::{AspSolver, SolveResult, no_backend_message};
use crate::text::{dec, join_strs, lines_from, push_joined, split_lines, str_views, u64_to_string};

verus! {

/// A ground atom: a predicate applied to arguments.
#[derive(Debug, Clone)]
pub struct AspFact {
    pub predicate: String,
    pub args: Vec<String>,
}

/// The program text of a fact: `pred.` without arguments, else
/// `pred(a, b, ...).`.
pub open spec fn fact_text(pred: Seq<char>, args: Seq<Seq<char>>) -> Seq<char> {
    if args.len() == 0 {
        pred + "."@
    } else {
        pred + "("@ + join_strs(args, ", "@) + ")."@
    }
}

/// A fact's program text.
pub open spec fn fact_view(f: AspFact) -> Seq<char> {
    fact_text(f.predicate@, str_views(f.args@))
}

/// Facts one per line.
pub open spec fn fact_lines(s: Seq<AspFact>) -> Seq<char>
    decreases s.len(),
{
    if s.len() == 0 {
        Seq::empty()
    } else {
        fact_lines(s.drop_last()) + fact_view(s.last()) + "\n"@
    }
}

/// Whether a fact has the given predicate and arguments.
pub open spec fn fact_is(f: AspFact, pred: Seq<char>, args: Seq<Seq<char>>) -> bool {
    f.predicate@ == pred && str_views(f.args@) == args
}

impl AspFact {
    /// A fact from a predicate and its arguments.
    pub fn new(predicate: &str, args: Vec<&str>) -> (f: Self)
        ensures
            f.predicate@ == predicate@,
            str_views(f.args@) == args@.map_values(|a: &str| a@),
    {
        let mut owned: Vec<String> = Vec::new();
        let mut i: usize = 0;
        while i < args.len()
            invariant
                i <= args.len(),
                owned@.len() == i,
                forall|k: int| 0 <= k < i ==> owned@[k]@ == args@[k]@,
            decreases args.len() - i,
        {
            owned.push(String::from_str(args[i]));
            i = i + 1;
        }
        assert(str_views(owned@) =~= args@.map_values(|a: &str| a@));
        AspFact { predicate: String::from_str(predicate), args: owned }
    }

    /// The program text of the fact.
    pub fn to_string(&self) -> (s: String)
        ensures
            s@ == fact_view(*self),
    {
        let mut s = self.predicate.clone();
        if self.args.len() == 0 {
            s.append(".");
        } else {
            s.append("(");
            push_joined(&mut s, &self.args, ", ");
            s.append(").");
        }
        s
    }
}

/// The extracted facts, grouped by kind.
pub struct AspFacts {
    pub ownership_facts: Vec<AspFact>,
    pub region_facts: Vec<AspFact>,
    pub capability_facts: Vec<AspFact>,
    pub effect_facts: Vec<AspFact>,
}

/// The program text of a fact collection: each group under its comment.
pub open spec fn program_text(f: AspFacts) -> Seq<char> {
    "% Ownership facts\n"@ + fact_lines(f.ownership_facts@)
        + "\n% Region facts\n"@ + fact_lines(f.region_facts@)
        + "\n% Capability facts\n"@ + fact_lines(f.capability_facts@)
        + "\n% Effect facts\n"@ + fact_lines(f.effect_facts@)
}

fn push_fact_lines(out: &mut String, facts: &Vec<AspFact>)
    ensures
        final(out)@ == old(out)@ + fact_lines(facts@),
{
    let ghost head = out@;
    let mut i: usize = 0;
    while i < facts.len()
        invariant
            i <= facts.len(),
            out@ == head + fact_lines(facts@.take(i as int)),
        decreases facts.len() - i,
    {
        assert(facts@.take(i + 1).drop_last() =~= facts@.take(i as int));
        let line = facts[i].to_string();
        out.append(line.as_str());
        out.append("\n");
        assert(out@ =~= head + fact_lines(facts@.take(i + 1)));
        i = i + 1;
    }
    assert(facts@.take(facts.len() as int) =~= facts@);
}

fn make_fact(predicate: &str, args: Vec<String>) -> (f: AspFact)
    ensures
        f.predicate@ == predicate@,
        f.args == args,
{
    AspFact { predicate: String::from_str(predicate), args }
}

impl AspFacts {
    /// An empty collection.
    pub fn new() -> (f: Self)
        ensures
            f.ownership_facts@.len() == 0,
            f.region_facts@.len() == 0,
            f.capability_facts@.len() == 0,
            f.effect_facts@.len() == 0,
    {
        AspFacts {
            ownership_facts: Vec::new(),
            region_facts: Vec::new(),
            capability_facts: Vec::new(),
            effect_facts: Vec::new(),
        }
    }

    /// Renders all facts as an answer set program.
    pub fn to_asp_program(&self) -> (p: String)
        ensures
            p@ == program_text(*self),
    {
        let mut program = String::new();
        program.append("% Ownership facts\n");
        push_fact_lines(&mut program, &self.ownership_facts);
        program.append("\n% Region facts\n");
        push_fact_lines(&mut program, &self.region_facts);
        program.append("\n% Capability facts\n");
        push_fact_lines(&mut program, &self.capability_facts);
        program.append("\n% Effect facts\n");
        push_fact_lines(&mut program, &self.effect_facts);
        assert(program@ =~= program_text(*self));
        program
    }

    /// Adds `owns(value, thread, timestamp)`.
    pub fn add_ownership(&mut self, value_id: u32, thread: u32, timestamp: u32)
        ensures
            final(self).ownership_facts@.len() == old(self).ownership_facts@.len() + 1,
            final(self).ownership_facts@.drop_last() == old(self).ownership_facts@,
            fact_is(final(self).ownership_facts@.last(), "owns"@,
                seq![dec(value_id as nat), dec(thread as nat), dec(timestamp as nat)]),
            final(self).region_facts == old(self).region_facts,
            final(self).capability_facts == old(self).capability_facts,
            final(self).effect_facts == old(self).effect_facts,
    {
        let args = vec![u64_to_string(value_id as u64), u64_to_string(thread as u64), u64_to_string(timestamp as u64)];
        let f = make_fact("owns", args);
        assert(str_views(f.args@) =~= seq![dec(value_id as nat), dec(thread as nat), dec(timestamp as nat)]);
        self.ownership_facts.push(f);
        assert(self.ownership_facts@.drop_last() =~= old(self).ownership_facts@);
    }

    /// Adds `region_status(region, timestamp, status)`.
    pub fn add_region_status(&mut self, region_id: u32, timestamp: u32, status: &str)
        ensures
            final(self).region_facts@.len() == old(self).region_facts@.len() + 1,
            final(self).region_facts@.drop_last() == old(self).region_facts@,
            fact_is(final(self).region_facts@.last(), "region_status"@,
                seq![dec(region_id as nat), dec(timestamp as nat), status@]),
            final(self).ownership_facts == old(self).ownership_facts,
            final(self).capability_facts == old(self).capability_facts,
            final(self).effect_facts == old(self).effect_facts,
    {
        let args = vec![u64_to_string(region_id as u64), u64_to_string(timestamp as u64), String::from_str(status)];
        let f = make_fact("region_status", args);
        assert(str_views(f.args@) =~= seq![dec(region_id as nat), dec(timestamp as nat), status@]);
        self.region_facts.push(f);
        assert(self.region_facts@.drop_last() =~= old(self).region_facts@);
    }

    /// Adds `allocated_in(ptr, region, timestamp)`.
    pub fn add_allocated_in(&mut self, ptr_id: u32, region_id: u32, timestamp: u32)
        ensures
            final(self).region_facts@.len() == old(self).region_facts@.len() + 1,
            final(self).region_facts@.drop_last() == old(self).region_facts@,
            fact_is(final(self).region_facts@.last(), "allocated_in"@,
                seq![dec(ptr_id as nat), dec(region_id as nat), dec(timestamp as nat)]),
            final(self).ownership_facts == old(self).ownership_facts,
            final(self).capability_facts == old(self).capability_facts,
            final(self).effect_facts == old(self).effect_facts,
    {
        let args = vec![u64_to_string(ptr_id as u64), u64_to_string(region_id as u64), u64_to_string(timestamp as u64)];
        let f = make_fact("allocated_in", args);
        assert(str_views(f.args@) =~= seq![dec(ptr_id as nat), dec(region_id as nat), dec(timestamp as nat)]);
        self.region_facts.push(f);
        assert(self.region_facts@.drop_last() =~= old(self).region_facts@);
    }

    /// Adds `capability(value, capability, timestamp)`.
    pub fn add_capability(&mut self, value_id: u32, capability: &str, timestamp: u32)
        ensures
            final(self).capability_facts@.len() == old(self).capability_facts@.len() + 1,
            final(self).capability_facts@.drop_last() == old(self).capability_facts@,
            fact_is(final(self).capability_facts@.last(), "capability"@,
                seq![dec(value_id as nat), capability@, dec(timestamp as nat)]),
            final(self).ownership_facts == old(self).ownership_facts,
            final(self).region_facts == old(self).region_facts,
            final(self).effect_facts == old(self).effect_facts,
    {
        let args = vec![u64_to_string(value_id as u64), String::from_str(capability), u64_to_string(timestamp as u64)];
        let f = make_fact("capability", args);
        assert(str_views(f.args@) =~= seq![dec(value_id as nat), capability@, dec(timestamp as nat)]);
        self.capability_facts.push(f);
        assert(self.capability_facts@.drop_last() =~= old(self).capability_facts@);
    }

    /// Adds `effect_emitted(effect, timestamp)`.
    pub fn add_effect_emitted(&mut self, effect: &str, timestamp: u32)
        ensures
            final(self).effect_facts@.len() == old(self).effect_facts@.len() + 1,
            final(self).effect_facts@.drop_last() == old(self).effect_facts@,
            fact_is(final(self).effect_facts@.last(), "effect_emitted"@, seq![effect@, dec(timestamp as nat)]),
            final(self).ownership_facts == old(self).ownership_facts,
            final(self).region_facts == old(self).region_facts,
            final(self).capability_facts == old(self).capability_facts,
    {
        let args = vec![String::from_str(effect), u64_to_string(timestamp as u64)];
        let f = make_fact("effect_emitted", args);
        assert(str_views(f.args@) =~= seq![effect@, dec(timestamp as nat)]);
        self.effect_facts.push(f);
        assert(self.effect_facts@.drop_last() =~= old(self).effect_facts@);
    }
}

/// Extracts facts from RMIR and hands the resulting program to the solver.
pub struct AspExtractor {
    facts: AspFacts,
}

impl AspExtractor {
    /// The facts gathered so far.
    pub closed spec fn gathered(&self) -> AspFacts {
        self.facts
    }

    /// An extractor with no facts.
    pub fn new() -> (e: Self)
        ensures
            e.gathered().ownership_facts@.len() == 0,
            e.gathered().region_facts@.len() == 0,
            e.gathered().capability_facts@.len() == 0,
            e.gathered().effect_facts@.len() == 0,
    {
        AspExtractor { facts: AspFacts::new() }
    }

    /// The program for the gathered facts. Reading facts out of the
    /// bytecode is not implemented: the bytecode is not inspected.
    pub fn extract_from_rmir(&mut self, _rmir_bytecode: &[u8]) -> (r: Result<String, IoError>)
        ensures
            r is Ok && r->Ok_0@ == program_text(old(self).gathered()),
            final(self).gathered() == old(self).gathered(),
    {
        Ok(self.facts.to_asp_program())
    }

    /// Turns a solver's answer into a proof: a satisfiable answer gives a
    /// satisfiable proof listing the gathered ownership facts and the lines
    /// of the answer set; an unsatisfiable one an empty unsatisfiable
    /// proof; an undecided one an error of kind `Other` carrying the
    /// solver's reason.
    pub fn proof_from_answer(&self, result: SolveResult) -> (r: Result<AspProof, IoError>)
        ensures
            match result {
                SolveResult::Satisfiable { answer_set } => r matches Ok(p) && {
                    &&& p.satisfiable
                    &&& str_views(p.facts@) == self.gathered().ownership_facts@.map_values(|f: AspFact| fact_view(f))
                    &&& p.rules@.len() == 0
                    &&& str_views(p.answer_set@) == lines_from(answer_set@, 0)
                },
                SolveResult::Unsatisfiable => r matches Ok(p) && {
                    &&& !p.satisfiable
                    &&& p.facts@.len() == 0
                    &&& p.rules@.len() == 0
                    &&& p.answer_set@.len() == 0
                },
                SolveResult::Unknown(msg) => r matches Err(e) && e.kind == IoErrorKind::Other && e.message@ == msg@,
            },
    {
        match result {
            SolveResult::Satisfiable { answer_set } => {
                let mut facts: Vec<String> = Vec::new();
                let mut i: usize = 0;
                while i < self.facts.ownership_facts.len()
                    invariant
                        i <= self.facts.ownership_facts.len(),
                        facts@.len() == i,
                        forall|k: int| 0 <= k < i ==> #[trigger] facts@[k]@ == fact_view(self.facts.ownership_facts@[k]),
                    decreases self.facts.ownership_facts.len() - i,
                {
                    let t = self.facts.ownership_facts[i].to_string();
                    facts.push(t);
                    i = i + 1;
                }
                assert(str_views(facts@) =~= self.facts.ownership_facts@.map_values(|f: AspFact| fact_view(f)));
                Ok(AspProof {
                    facts,
                    rules: Vec::new(),
                    satisfiable: true,
                    answer_set: split_lines(answer_set.as_str()),
                })
            },
            SolveResult::Unsatisfiable => Ok(AspProof {
                facts: Vec::new(),
                rules: Vec::new(),
                satisfiable: false,
                answer_set: Vec::new(),
            }),
            SolveResult::Unknown(msg) => Err(IoError { kind: IoErrorKind::Other, message: msg }),
        }
    }

    /// Solves the program of the gathered facts and turns the solver's
    /// answer into a proof (`proof_from_answer`). Without a solver backend
    /// every program is undecided.
    pub fn solve(&mut self) -> (r: Result<AspProof, IoError>)
        ensures
            r is Err && r->Err_0.kind == IoErrorKind::Other && r->Err_0.message@ == no_backend_message(),
            final(self).gathered() == old(self).gathered(),
    {
        let program = self.facts.to_asp_program();
        let solver = AspSolver::new();
        let result = solver.solve(program.as_str());
        self.proof_from_answer(result)
    }
}

} // verus!
