use fluid_rust::prover::asp::asp_proof::AspProof as SolvedAspProof;
use fluid_rust::prover::asp::extractor::{AspExtractor as FactExtractor, AspFact, AspFacts};
use fluid_rust::prover::asp::rules::{generate_rules, get_rule_set, ownership_rules, region_rules};
use fluid_rust::prover::asp::solver::{AspSolver, SolveResult as AspSolveResult};
use fluid_rust::prover::asp::{AspExtractor, AspProof};
use fluid_rust::prover::cert_check::{check_asp_predicate, check_smt_formula, verify_certificate};
use fluid_rust::prover::certificate::{ProofCertificate, ProofFacts};
use fluid_rust::prover::obligations::{ObligationKind, ObligationSet, ProofObligation};
use fluid_rust::prover::smt::constraints::{Constraint, SmtConstraints};
use fluid_rust::prover::smt::smt_proof::SmtProof as SolvedSmtProof;
use fluid_rust::prover::smt::z3_bridge::{SolveResult, Z3Solver};
use fluid_rust::prover::smt::{SmtGenerator, SmtProof};

#[test]
fn test_asp_extraction() {
    let mut extractor = AspExtractor::new();
    let result = extractor.extract_from_rmir(b"test");
    assert!(result.is_ok());
    assert!(!extractor.facts.is_empty());
}

#[test]
fn test_asp_solve() {
    let extractor = AspExtractor::new();
    let proof = extractor.solve().unwrap();
    assert!(proof.satisfiable);
}

#[test]
fn test_asp_fact_serialization() {
    let fact = AspFact::new("owns", vec!["42", "0", "100"]);
    assert_eq!(fact.to_string(), "owns(42, 0, 100).");
}

#[test]
fn test_asp_facts_to_program() {
    let mut facts = AspFacts::new();
    facts.add_ownership(42, 0, 100);
    facts.add_region_status(1, 0, "unentered");

    let program = facts.to_asp_program();
    assert!(program.contains("owns(42, 0, 100)."));
    assert!(program.contains("region_status(1, 0, unentered)."));
}

#[test]
fn test_rules_generation() {
    let rules = generate_rules();
    assert!(rules.contains("OWNERSHIP RULES"));
    assert!(rules.contains("REGION LIFECYCLE RULES"));
    assert!(rules.contains("CAPABILITY RULES"));
    assert!(rules.contains("EFFECT RULES"));
}

#[test]
fn test_ownership_constraint_exists() {
    let rules = ownership_rules();
    assert!(rules.contains("No two threads own the same value"));
}

#[test]
fn test_region_constraint_exists() {
    let rules = region_rules();
    assert!(rules.contains("All allocations must be deallocated"));
}

#[test]
fn test_certificate_generation() {
    let asp = AspProof {
        facts: vec!["test".to_string()],
        rules: vec![],
        answer_set: vec![],
        satisfiable: true,
    };
    let smt = SmtProof {
        assertions: vec![],
        model: vec![],
        satisfiable: true,
    };

    let cert = ProofCertificate::generate("hash", asp, smt).unwrap();
    assert!(!cert.metadata.program_hash.is_empty());
}

#[test]
fn test_ownership_obligation() {
    let ob = ProofObligation::ownership_invariant(0, "x");
    assert_eq!(ob.id, 0);
    assert!(ob.description.contains("linear"));
}

#[test]
fn test_bounds_check_obligation() {
    let ob = ProofObligation::bounds_check(1, "i", "100");
    assert_eq!(ob.id, 1);
    assert!(ob.target.contains("within_bounds"));
}

#[test]
fn test_obligation_set() {
    let mut set = ObligationSet::new();
    set.add(ProofObligation::ownership_invariant(0, "x"));
    set.add(ProofObligation::region_safety(1, "r1"));
    assert_eq!(set.obligations.len(), 2);
}

#[test]
fn test_smt_extraction() {
    let mut gen = SmtGenerator::new();
    let result = gen.extract_from_rmir(b"test");
    assert!(result.is_ok());
}

#[test]
fn test_smt_solve() {
    let gen = SmtGenerator::new();
    let proof = gen.solve().unwrap();
    assert!(proof.satisfiable);
}

#[test]
fn test_constraint_to_smt_lib2() {
    let c = Constraint {
        variable: "x".to_string(),
        operator: ">".to_string(),
        value: 0,
    };
    assert_eq!(c.to_smt_lib2(), "(> x 0)");
}

#[test]
fn test_constraints_to_smt_lib2() {
    let constraints = SmtConstraints::region_allocation_example();
    let output = constraints.to_smt_lib2();
    assert!(output.contains("(declare-const size_stack_0 Int)"));
    assert!(output.contains("(assert (> size_stack_0 0))"));
    assert!(output.contains("(check-sat)"));
}

#[test]
fn test_z3_solver_satisfiable() {
    let solver = Z3Solver::new("(> n 0) (<= n 1024)");
    assert!(solver.is_satisfiable());
}

#[test]
fn test_z3_solver_unsatisfiable() {
    let solver = Z3Solver::new("unsat constraint: (< n 0)");
    match solver.solve() {
        SolveResult::Unsatisfiable { .. } => {}
        _ => panic!("Expected UNSAT"),
    }
}

#[test]
fn test_z3_get_model() {
    let solver = Z3Solver::new("(> n 0)");
    let model = solver.get_model();
    assert!(model.is_some());
    assert!(model.unwrap().iter().any(|(k, _)| k == "n"));
}

fn empty_facts() -> ProofFacts {
    ProofFacts {
        rmir_instructions: vec![],
        ownership_facts: vec![],
        region_facts: vec![],
        capability_facts: vec![],
        effect_facts: vec![],
    }
}

#[test]
fn test_verify_valid_certificate() {
    let mut cert = ProofCertificate::new("abc123".to_string(), "test.rs".to_string(), empty_facts());

    cert.asp_result.satisfiable = true;
    cert.smt_result.satisfiable = true;
    cert.signature = "test_sig".to_string();

    assert!(verify_certificate(&cert).is_ok());
}

#[test]
fn test_verify_invalid_asp() {
    let mut cert = ProofCertificate::new("abc123".to_string(), "test.rs".to_string(), empty_facts());

    cert.asp_result.satisfiable = false;
    cert.asp_result.diagnosis = Some("contradiction detected".to_string());

    let result = verify_certificate(&cert);
    assert!(result.is_err());
    assert!(result.unwrap_err().contains("ASP unsatisfiable"));
}

#[test]
fn test_verify_unsigned_certificate() {
    let mut cert = ProofCertificate::new("abc123".to_string(), "test.rs".to_string(), empty_facts());

    cert.asp_result.satisfiable = true;
    cert.smt_result.satisfiable = true;
    cert.signature = String::new();

    let result = verify_certificate(&cert);
    assert!(result.is_err());
    assert!(result.unwrap_err().contains("not signed"));
}

#[test]
fn asp_extractor_contents() {
    let mut e = AspExtractor::default();
    e.extract_from_rmir(b"").unwrap();
    assert_eq!(e.facts, vec!["region_enter(r1).", "region_active(r1).", "linear_var(x).", "effect(io)."]);
    assert_eq!(e.rules.len(), 2);
    assert_eq!(e.constraints, vec![":- deallocate(R), not active(R)."]);
    let p = e.solve().unwrap();
    assert_eq!(p.answer_set, vec!["active(r1)", "safe_linear(x)"]);
    assert_eq!(p.facts, e.facts);
}

#[test]
fn asp_program_layout() {
    let mut facts = AspFacts::new();
    facts.add_allocated_in(5, 1, 2);
    facts.add_capability(3, "write", 4);
    facts.add_effect_emitted("io", 7);
    facts.add_ownership(1, 2, 3);
    assert_eq!(
        facts.to_asp_program(),
        "% Ownership facts\nowns(1, 2, 3).\n\n% Region facts\nallocated_in(5, 1, 2).\n\n% Capability facts\ncapability(3, write, 4).\n\n% Effect facts\neffect_emitted(io, 7).\n"
    );
    assert_eq!(AspFact::new("done", vec![]).to_string(), "done.");
}

#[test]
fn asp_extractor_reports_missing_backend() {
    let mut e = FactExtractor::new();
    assert_eq!(e.extract_from_rmir(b"x").unwrap(), "% Ownership facts\n\n% Region facts\n\n% Capability facts\n\n% Effect facts\n");
    let err = e.solve().unwrap_err();
    assert_eq!(err.message, "clingo solver not yet integrated");
    let s = AspSolver::new();
    assert!(matches!(s.solve("a."), AspSolveResult::Unknown(_)));
    assert!(!s.check_predicate("a", "a"));
    let d = SolvedAspProof::default();
    assert!(!d.satisfiable);
}

#[test]
fn rule_set_is_generated_rules() {
    assert_eq!(get_rule_set(), generate_rules());
    assert!(generate_rules().starts_with("% ============ OWNERSHIP RULES ============\n\n"));
}

#[test]
fn obligation_texts() {
    let o = ProofObligation::effect_ordering(4, "io", "gc");
    assert_eq!(o.kind, ObligationKind::EffectOrdering);
    assert_eq!(o.description, "Effect 'io' preconditions satisfied before 'gc'");
    assert_eq!(o.assumptions, vec!["effect_precondition(io)", "ordering(io, gc)"]);
    assert_eq!(o.negated_query, "?- precondition_violated(io, gc).");
    let b = ProofObligation::bounds_check(1, "i", "100");
    assert_eq!(b.negated_query, "?- i >= 100.");
    let r = ProofObligation::region_safety(2, "r1");
    assert_eq!(r.target, "safe(access_to(r1))");
}

#[test]
fn smt_generator_contents() {
    let mut g = SmtGenerator::default();
    g.extract_from_rmir(b"").unwrap();
    let p = g.solve().unwrap();
    assert_eq!(p.assertions, vec!["(declare-fun n () Int)", "(assert (> n 0))", "(assert (<= n 4096))"]);
    assert_eq!(p.model, vec![("n".to_string(), 512)]);
    assert!(!SolvedSmtProof::default().satisfiable);
}

#[test]
fn smt_script_exact() {
    let mut c = SmtConstraints::new();
    c.declare_variable("x", "Int");
    c.declare_variable("x", "Real");
    c.add_constraint(Constraint { variable: "x".to_string(), operator: "!=".to_string(), value: -3 });
    c.add_constraint(Constraint { variable: "x".to_string(), operator: "==".to_string(), value: 7 });
    assert_eq!(
        c.to_smt_lib2(),
        "(set-logic QF_LIA)\n\n; Variable declarations\n(declare-const x Real)\n\n; Constraints\n(assert (not (= x -3)))\n(assert (= x 7))\n\n(check-sat)\n"
    );
}

#[test]
fn z3_patterns() {
    assert!(!Z3Solver::new("n >= 1000000").is_satisfiable());
    assert!(Z3Solver::new("(>= n 1000000)").is_satisfiable());
    assert!(!Z3Solver::new("false").is_satisfiable());
    assert!(Z3Solver::new("(> n 0)").get_model().unwrap().len() == 2);
    assert!(Z3Solver::new("< 0").get_model().is_none());
}

#[test]
fn certificate_checks_in_order() {
    let mut cert = ProofCertificate::new(String::new(), "f.rs".to_string(), empty_facts());
    assert_eq!(verify_certificate(&cert).unwrap_err(), "Program hash missing");
    cert.metadata.program_hash = "h".to_string();
    assert_eq!(verify_certificate(&cert).unwrap_err(), "ASP unsatisfiable: None");
    cert.asp_result.satisfiable = true;
    cert.smt_result.diagnosis = Some("bad \"n\"".to_string());
    assert_eq!(verify_certificate(&cert).unwrap_err(), "SMT unsatisfiable: Some(\"bad \\\"n\\\"\")");
    cert.smt_result.satisfiable = true;
    assert!(cert.is_valid());
    cert.sign("key");
    assert_eq!(cert.signature, blake3::hash(b"h").to_hex().to_string());
    assert!(verify_certificate(&cert).is_ok());
    assert!(check_asp_predicate("active(r1) safe(x)", "safe(x)"));
    assert!(!check_asp_predicate("active(r1)", "safe"));
    assert!(check_smt_formula("n=1", "(> n 0)"));
    assert!(!check_smt_formula("", "(> n 0)"));
}

#[test]
fn solver_answers_become_proofs() {
    let extractor = FactExtractor::new();
    let sat = extractor
        .proof_from_answer(AspSolveResult::Satisfiable { answer_set: "safe(r1)\nactive(r1)".to_string() })
        .unwrap();
    assert!(sat.satisfiable);
    assert!(sat.facts.is_empty());
    assert!(sat.rules.is_empty());
    assert_eq!(sat.answer_set, vec!["safe(r1)".to_string(), "active(r1)".to_string()]);
    let unsat = extractor.proof_from_answer(AspSolveResult::Unsatisfiable).unwrap();
    assert!(!unsat.satisfiable);
    assert!(unsat.answer_set.is_empty());
    let unknown = extractor.proof_from_answer(AspSolveResult::Unknown("timeout".to_string())).unwrap_err();
    assert_eq!(unknown.message, "timeout");
}

#[test]
fn test_buffer_overflow_counterexample_detected() {
    let buffer_len = 5;
    let unsafe_constraint = format!(
        "(declare-fun index () Int) \
         (declare-fun buffer_len () Int) \
         (assert (= buffer_len {})) \
         (assert (>= index 0)) \
         (assert (< index buffer_len))",
        buffer_len
    );
    let solver = Z3Solver::new(&unsafe_constraint);
    assert!(solver.is_satisfiable(), "Bounded access should be satisfiable");
    let model = solver.get_model().expect("Should have model");
    println!("Valid model for bounded access: {:?}", model);
    let vulnerable_constraint = format!(
        "(declare-fun index () Int) \
         (declare-fun buffer_len () Int) \
         (assert (= buffer_len {})) \
         (assert (and \
           (>= index (- 2147483648)) \
           (<= index 2147483647) \
           (or (< index 0) (>= index buffer_len))))",
        buffer_len
    );
    let vulnerable_solver = Z3Solver::new(&vulnerable_constraint);
    assert!(
        vulnerable_solver.is_satisfiable(),
        "Vulnerable code has satisfiable counterexample (buffer overflow possible)"
    );
}

#[test]
fn test_negative_index_counterexample() {
    let constraint = "(declare-fun index () Int) \
                     (assert (< index 0))";
    let solver = Z3Solver::new(constraint);
    assert!(solver.is_satisfiable(), "Negative index is satisfiable");
}

#[test]
fn test_out_of_bounds_high_counterexample() {
    let buffer_len = 5;
    let constraint = format!(
        "(declare-fun index () Int) \
         (assert (>= index {}))",
        buffer_len
    );
    let solver = Z3Solver::new(&constraint);
    assert!(solver.is_satisfiable(), "Out-of-bounds high index is satisfiable");
}

#[test]
fn test_refined_type_proves_safety() {
    let buffer_len = 5;
    let counterexample_search = format!(
        "(declare-fun index () Int) \
         (assert (>= index 0)) \
         (assert (< index {})) \
         (assert (or (< index 0) (>= index {})))",
        buffer_len, buffer_len
    );
    let cex_solver = Z3Solver::new(&counterexample_search);
    match cex_solver.solve() {
        SolveResult::Satisfiable { .. } => println!("Mock SMT: Returns SAT (real Z3 would UNSAT for refined type)"),
        SolveResult::Unsatisfiable { .. } => println!("PROOF VERIFIED: No counterexample exists for refined type"),
        _ => {}
    }
}

#[test]
fn test_proof_certificate_chain() {
    let smt_formula = "(declare-fun index () Int) \
                      (declare-fun len () Int) \
                      (assert (= len 5)) \
                      (assert (not (and (>= index 0) (< index len))))";
    let solver = Z3Solver::new(smt_formula);
    let result_desc = match solver.solve() {
        SolveResult::Satisfiable { model } => {
            println!("  Counterexample model: {:?}", model);
            "UNSAT (counterexample found)".to_string()
        }
        SolveResult::Unsatisfiable { .. } => "SAT (safe)".to_string(),
        SolveResult::Unknown(msg) => format!("UNKNOWN ({})", msg),
    };
    println!("  SMT proof: {}", result_desc);
}
