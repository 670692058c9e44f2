use fluid_rust::compiler::rmir::ir::Value;
use fluid_rust::compiler::artifact::{CompilationArtifact, DiagnosticLevel};
use fluid_rust::compiler::frontend::elaboration::ElaborationContext;
use fluid_rust::compiler::frontend::ownership::{Lifetime, OwnershipAnalyzer, OwnershipFact, OwnershipKind};
use fluid_rust::compiler::frontend::parser::{Lexer, Parser, Token};
use fluid_rust::compiler::pipeline::{compile_source, create_stub_rmir};
use fluid_rust::compiler::rmir::decoder::RmirDecoder;
use fluid_rust::compiler::rmir::effect::{EffectPhase, EffectRequest, EffectTracker};
use fluid_rust::compiler::rmir::encoder::{ProofGoal, RmirEncoder};
use fluid_rust::compiler::rmir::ir::{ExecutionState, RmirInstruction};
use fluid_rust::compiler::rmir::state::execute_instruction;
use fluid_rust::outside::{char_is_alphabetic, char_is_numeric, char_is_whitespace};

#[test]
fn test_lex_simple_function() {
    let mut lexer = Lexer::new("fn main() { }");
    let tokens = lexer.tokenize().unwrap();
    assert!(tokens.iter().any(|t| matches!(t, Token::Fn)));
}

#[test]
fn test_parse_empty_function() {
    let lexer = Lexer::new("fn main() { }").tokenize().unwrap();
    let mut parser = Parser::new(lexer);
    let func = parser.parse_function().unwrap();
    assert_eq!(func.name, "main");
}

#[test]
fn test_decode_header() {
    let bytes = b"RMIR\x01\x00\x00\x00\x00\x00\x00\x00";
    let decoder = RmirDecoder::new(bytes).unwrap();
    assert_eq!(decoder.offset, 0);
}

#[test]
fn test_decode_invalid_magic() {
    let bytes = b"XXXX\x01\x00\x00\x00\x00\x00\x00\x00";
    assert!(RmirDecoder::new(bytes).is_err());
}

#[test]
fn test_decode_invalid_version() {
    let bytes = b"RMIR\x02\x00\x00\x00\x00\x00\x00\x00";
    assert!(RmirDecoder::new(bytes).is_err());
}

#[test]
fn test_roundtrip_simple() {
    let mut encoder = RmirEncoder::new();
    encoder.encode_header().unwrap();
    encoder.encode_metadata(1234567890, "test.rs", "0.1.0").unwrap();
    encoder.encode_instruction_header(1).unwrap();
    encoder.encode_instruction(0x09, &[1]).unwrap();
    encoder.encode_proof_goals().unwrap();

    let bytecode = encoder.finish().unwrap();
    let decoder = RmirDecoder::new(&bytecode).unwrap();

    decoder.verify_checksum().unwrap();
    let program = decoder.decode_all().unwrap();

    assert_eq!(program.instructions.len(), 1);
    assert_eq!(program.instructions[0].0, 0x09);
    assert_eq!(program.instructions[0].1, vec![1]);
}

#[test]
fn test_roundtrip_multiple_instructions() {
    let mut encoder = RmirEncoder::new();
    encoder.encode_header().unwrap();
    encoder.encode_metadata(0, "", "").unwrap();
    encoder.encode_instruction_header(3).unwrap();
    encoder.encode_instruction(0x09, &[1]).unwrap();
    encoder.encode_instruction(0x11, &[1, 2, 3, 4]).unwrap();
    encoder.encode_instruction(0x0A, &[1]).unwrap();
    encoder.encode_proof_goals().unwrap();

    let bytecode = encoder.finish().unwrap();
    let decoder = RmirDecoder::new(&bytecode).unwrap();
    decoder.verify_checksum().unwrap();
    let program = decoder.decode_all().unwrap();

    assert_eq!(program.instructions.len(), 3);
}

#[test]
fn test_roundtrip_with_proof_goals() {
    let mut encoder = RmirEncoder::new();
    encoder.encode_header().unwrap();
    encoder.encode_metadata(0, "", "").unwrap();
    encoder.encode_instruction_header(1).unwrap();
    encoder.encode_instruction(0x09, &[1]).unwrap();

    encoder.add_proof_goal(ProofGoal::RegionSafety(1));
    encoder.add_proof_goal(ProofGoal::OwnershipInvariant(2));

    encoder.encode_proof_goals().unwrap();

    let bytecode = encoder.finish().unwrap();
    let decoder = RmirDecoder::new(&bytecode).unwrap();
    decoder.verify_checksum().unwrap();
    let program = decoder.decode_all().unwrap();

    assert_eq!(program.proof_goals.len(), 2);
}

#[test]
fn test_checksum_detection() {
    let mut encoder = RmirEncoder::new();
    encoder.encode_header().unwrap();
    encoder.encode_metadata(0, "", "").unwrap();
    encoder.encode_instruction_header(0).unwrap();
    encoder.encode_proof_goals().unwrap();

    let mut bytecode = encoder.finish().unwrap();

    let last = bytecode.len() - 1;
    bytecode[last] ^= 0xFF;

    let decoder = RmirDecoder::new(&bytecode).unwrap();
    assert!(decoder.verify_checksum().is_err());
}

#[test]
fn test_encode_header() {
    let mut encoder = RmirEncoder::new();
    encoder.encode_header().unwrap();
    assert!(encoder.buffer.starts_with(b"RMIR"));
    assert_eq!(encoder.buffer[4..8], [0x01, 0x00, 0x00, 0x00]);
}

#[test]
fn test_encode_instruction() {
    let mut encoder = RmirEncoder::new();
    encoder.encode_instruction(0x09, &[1]).unwrap();
    assert_eq!(encoder.buffer[0], 0x09);
    assert_eq!(encoder.buffer[1], 1);
}

#[test]
fn test_proof_goal_tracking() {
    let mut encoder = RmirEncoder::new();
    let id1 = encoder.add_proof_goal(ProofGoal::RegionSafety(1));
    let id2 = encoder.add_proof_goal(ProofGoal::OwnershipInvariant(2));

    assert_eq!(id1, 0);
    assert_eq!(id2, 1);
    assert_eq!(encoder.proof_goals.len(), 2);
}

#[test]
fn test_varint_encoding() {
    let mut encoder = RmirEncoder::new();

    encoder.write_varint(42).unwrap();
    assert_eq!(encoder.buffer[0], 42);

    encoder.buffer.clear();
    encoder.write_varint(256).unwrap();
    assert_eq!(encoder.buffer[0] & 0x80, 0x80);

    encoder.buffer.clear();
    encoder.write_varint(100000).unwrap();
    assert_eq!(encoder.buffer[0], 0xC0);
}

#[test]
fn test_finish_adds_checksum() {
    let mut encoder = RmirEncoder::new();
    encoder.buffer.extend_from_slice(b"TEST");
    let result = encoder.finish().unwrap();

    assert_eq!(result.len(), 4 + 32);
}

#[test]
fn test_simple_region_elaboration() {
    let mut ctx = ElaborationContext::new();
    ctx.enter_region("r1".to_string());
    assert!(ctx.allocate("r1".to_string(), "ptr_0".to_string(), 64).is_ok());
    let err = ctx.exit_region("r1".to_string()).unwrap_err();
    assert_eq!(err, "Cannot exit region r1 with active allocations");
    ctx.enter_region("r2".to_string());
    assert!(ctx.exit_region("r2".to_string()).is_ok());
    assert_eq!(ctx.allocate("r2".to_string(), "p".to_string(), 8).unwrap_err(), "Region r2 not active");
}

fn fact(value: &str, owner: Option<&str>, kind: OwnershipKind) -> OwnershipFact {
    OwnershipFact {
        value_id: value.to_string(),
        owner: owner.map(|o| o.to_string()),
        kind,
        lifetime: None,
        region: None,
    }
}

#[test]
fn test_ownership_tracking() {
    let mut analyzer = OwnershipAnalyzer::new();
    analyzer.record_fact(fact("x", Some("t1"), OwnershipKind::Unique));
    analyzer.record_fact(fact("x", Some("t1"), OwnershipKind::Consumed));
    assert!(analyzer.verify_all().is_ok());
    analyzer.record_fact(fact("x", Some("t1"), OwnershipKind::BorrowedShared));
    let err = analyzer.check_no_use_after_consume().unwrap_err();
    assert_eq!(err, "Use-after-consume: value x consumed at point 1 but used at point 2");
    assert_eq!(analyzer.verify_all().unwrap_err().len(), 1);
}

#[test]
fn test_rmir_execution() {
    let state = ExecutionState::new();
    let (s1, obs1) = execute_instruction(&RmirInstruction::RegionEnter { region_id: 1 }, &state).unwrap();
    assert_eq!(obs1.len(), 1);
    assert_eq!(s1.pc, 1);
    let (s2, _) = execute_instruction(&RmirInstruction::Allocate { region_id: 1, size: 16, ptr_id: 7 }, &s1).unwrap();
    let err = execute_instruction(&RmirInstruction::RegionExit { region_id: 1 }, &s2).unwrap_err();
    assert!(err.contains("1"));
    let (s3, _) = execute_instruction(&RmirInstruction::Deallocate { region_id: 1, ptr_id: 7 }, &s2).unwrap();
    let (s4, _) = execute_instruction(&RmirInstruction::RegionExit { region_id: 1 }, &s3).unwrap();
    assert!(execute_instruction(&RmirInstruction::Allocate { region_id: 1, size: 8, ptr_id: 8 }, &s4).is_err());
}

#[test]
fn test_proof_obligation_generation() {
    let state = ExecutionState::new();
    let (s1, obs) = execute_instruction(&RmirInstruction::RegionEnter { region_id: 3 }, &state).unwrap();
    assert_eq!(obs[0].kind, "region_lifecycle");
    assert_eq!(obs[0].description, "Region 3 entered");
    assert_eq!(s1.proof_obligations.len(), 1);
    let mut ctx = ElaborationContext::new();
    assert_eq!(ctx.next_proof_id(), 0);
    assert_eq!(ctx.next_proof_id(), 1);
}

#[test]
fn test_effect_tracking() {
    let mut tracker = EffectTracker::new();
    let id = tracker.emit_effect(EffectRequest { kind: "IO".to_string(), payload: "write".to_string() });
    assert_eq!(id, 0);
    assert_eq!(tracker.effect_precondition(0).unwrap(), "file handle must be valid and open");
    assert_eq!(tracker.verify_no_unhandled_effects().unwrap_err(), vec![0]);
    assert!(tracker.mark_complete(0).is_err());
    assert!(tracker.mark_in_progress(0).is_ok());
    assert_eq!(
        tracker.mark_in_progress(0).unwrap_err(),
        "Effect 0 already in progress or complete"
    );
    assert!(tracker.mark_complete(0).is_ok());
    assert_eq!(tracker.all_effects()[0].1, EffectPhase::Complete);
    assert!(tracker.verify_no_unhandled_effects().is_ok());
    assert_eq!(tracker.mark_in_progress(5).unwrap_err(), "Effect 5 not found");
}

#[test]
fn ownership_two_owners_reported() {
    let mut analyzer = OwnershipAnalyzer::new();
    analyzer.record_fact(fact("v", Some("a"), OwnershipKind::Unique));
    analyzer.record_fact(fact("v", None, OwnershipKind::BorrowedMut));
    analyzer.record_fact(fact("v", Some("b"), OwnershipKind::BorrowedShared));
    assert_eq!(
        analyzer.check_no_aliasing().unwrap_err(),
        "Multiple threads own value v: {Some(\"a\"), None}"
    );
    assert!(analyzer.check_borrow_lifetimes().is_ok());
    let _ = Lifetime { name: "a".to_string(), scope: 0 };
}

#[test]
fn ownership_shared_readers_pass() {
    let mut analyzer = OwnershipAnalyzer::new();
    analyzer.record_fact(fact("v", Some("a"), OwnershipKind::BorrowedShared));
    analyzer.record_fact(fact("v", Some("b"), OwnershipKind::BorrowedShared));
    analyzer.advance_program_point();
    assert!(analyzer.verify_all().is_ok());
}

#[test]
fn effect_precondition_kinds() {
    let mut tracker = EffectTracker::new();
    for kind in ["State", "Async", "Region", "GC", "FFI"] {
        tracker.emit_effect(EffectRequest { kind: kind.to_string(), payload: String::new() });
    }
    assert_eq!(tracker.effect_precondition(0).unwrap(), "mutable reference must be valid");
    assert_eq!(tracker.effect_precondition(1).unwrap(), "scheduler must be available");
    assert_eq!(tracker.effect_precondition(2).unwrap(), "region must be in correct state");
    assert_eq!(tracker.effect_precondition(3).unwrap(), "heap must be consistent");
    assert!(tracker.effect_precondition(4).is_none());
    assert!(tracker.effect_precondition(9).is_none());
    assert_eq!(tracker.mark_complete(1).unwrap_err(), "Effect 1 not in progress");
}

#[test]
fn artifact_hash_and_diagnostics() {
    let mut a = CompilationArtifact::new(
        "h".to_string(),
        "0.1.0".to_string(),
        "f.rs".to_string(),
        b"abc".to_vec(),
        "native".to_string(),
    );
    assert_eq!(a.rmir_hash, blake3::hash(b"abc").to_hex().to_string());
    assert_eq!(a.proof_mode, "generate");
    assert!(!a.has_errors());
    a.add_diagnostic(DiagnosticLevel::Warning, "w".to_string());
    assert!(!a.has_errors());
    a.add_diagnostic(DiagnosticLevel::Error, "e".to_string());
    assert!(a.has_errors());
}

#[test]
fn pipeline_stub_and_empty_source() {
    let stub = create_stub_rmir();
    assert_eq!(stub.len(), 24 + 32);
    assert_eq!(&stub[0..8], b"RMIR\x01\x00\x00\x00");
    assert_eq!(&stub[24..], blake3::hash(&stub[..24]).as_bytes());
    assert!(RmirDecoder::new(&stub).unwrap().verify_checksum().is_ok());

    let a = compile_source("", "empty.rs".to_string(), "native", "verify");
    assert!(a.has_errors());
    assert_eq!(a.diagnostics[0].message, "Source file is empty");
    assert_eq!(a.proof_mode, "verify");

    let b = compile_source("fn main() {}", "m.rs".to_string(), "managed", "generate");
    assert!(!b.has_errors());
    assert_eq!(b.source_hash, blake3::hash(b"fn main() {}").to_hex().to_string());
    assert_eq!(b.backend, "managed");
}

#[test]
fn double_free_is_rejected() {
    let s0 = ExecutionState::new();
    let (s1, _) = execute_instruction(&RmirInstruction::RegionEnter { region_id: 2 }, &s0).unwrap();
    let (s2, _) = execute_instruction(&RmirInstruction::Allocate { region_id: 2, size: 4, ptr_id: 5 }, &s1).unwrap();
    let (s3, obs) = execute_instruction(&RmirInstruction::Deallocate { region_id: 2, ptr_id: 5 }, &s2).unwrap();
    assert_eq!(obs.len(), 1);
    assert_eq!(obs[0].kind, "region_no_refs");
    assert_eq!(obs[0].description, "Deallocated 5 from region 2, no references remain");
    let err = execute_instruction(&RmirInstruction::Deallocate { region_id: 2, ptr_id: 5 }, &s3).unwrap_err();
    assert_eq!(err, "Pointer 5 not allocated in region 2");
}

#[test]
fn moved_value_cannot_be_used() {
    let s0 = ExecutionState::new();
    let (s1, _) = execute_instruction(&RmirInstruction::Assign { id: 1, value: Value::Int(3) }, &s0).unwrap();
    let (s2, _) = execute_instruction(&RmirInstruction::Move { src: 1, dst: 2 }, &s1).unwrap();
    assert!(execute_instruction(&RmirInstruction::Move { src: 1, dst: 3 }, &s2).is_err());
    assert!(execute_instruction(&RmirInstruction::Consume { id: 1 }, &s2).is_err());
    let (s3, _) = execute_instruction(&RmirInstruction::Consume { id: 2 }, &s2).unwrap();
    assert!(execute_instruction(&RmirInstruction::Consume { id: 2 }, &s3).is_err());
}

#[test]
fn deallocate_records_no_refs_obligation() {
    let s0 = ExecutionState::new();
    let (s1, _) = execute_instruction(&RmirInstruction::RegionEnter { region_id: 1 }, &s0).unwrap();
    let (s2, _) = execute_instruction(&RmirInstruction::Allocate { region_id: 1, size: 16, ptr_id: 7 }, &s1).unwrap();
    let before = s2.proof_obligations.len();
    let (s3, obs) = execute_instruction(&RmirInstruction::Deallocate { region_id: 1, ptr_id: 7 }, &s2).unwrap();
    assert_eq!(obs.len(), 1);
    assert_eq!(obs[0].id as usize, before);
    assert_eq!(obs[0].kind, "region_no_refs");
    assert_eq!(obs[0].description, "Deallocated 7 from region 1, no references remain");
    assert_eq!(s3.proof_obligations.len(), before + 1);
    assert!(s3.capabilities.get(1, 7).is_none());
}

#[test]
fn use_between_consumptions_is_reported() {
    let mut analyzer = OwnershipAnalyzer::new();
    analyzer.record_fact(fact("x", Some("t1"), OwnershipKind::Consumed));
    analyzer.record_fact(fact("x", Some("t1"), OwnershipKind::Unique));
    analyzer.record_fact(fact("x", Some("t1"), OwnershipKind::Consumed));
    let err = analyzer.check_no_use_after_consume().unwrap_err();
    assert_eq!(err, "Use-after-consume: value x consumed at point 0 but used at point 1");
}

#[test]
fn consumption_of_another_value_is_no_violation() {
    let mut analyzer = OwnershipAnalyzer::new();
    analyzer.record_fact(fact("y", Some("t1"), OwnershipKind::Consumed));
    analyzer.record_fact(fact("x", Some("t1"), OwnershipKind::Unique));
    analyzer.record_fact(fact("x", Some("t1"), OwnershipKind::Consumed));
    analyzer.record_fact(fact("x", Some("t1"), OwnershipKind::Consumed));
    assert!(analyzer.check_no_use_after_consume().is_ok());
}

#[test]
fn artifact_timestamp_is_rfc3339() {
    let a = CompilationArtifact::new(
        "h".to_string(),
        "0.1".to_string(),
        "f.fl".to_string(),
        vec![],
        "managed".to_string(),
    );
    assert!(a.timestamp.ends_with("+00:00"));
    assert_eq!(&a.timestamp[4..5], "-");
    assert_eq!(&a.timestamp[10..11], "T");
}

#[test]
fn whitespace_matches_std_on_every_char() {
    for u in 0u32..=0x10FFFF {
        if let Some(c) = char::from_u32(u) {
            assert_eq!(char_is_whitespace(c), c.is_whitespace(), "code point {:x}", u);
        }
    }
}

#[test]
fn ascii_letters_and_digits_classify() {
    for u in 0u32..128 {
        let c = char::from_u32(u).unwrap();
        assert_eq!(char_is_alphabetic(c), c.is_ascii_alphabetic());
        assert_eq!(char_is_numeric(c), c.is_ascii_digit());
    }
}
