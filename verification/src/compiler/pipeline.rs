//! The compiler pipeline from source text to an artifact. Reading the
//! source file is left to the caller; this module does the rest.

use vstd::prelude::*;
use crate::compiler::artifact::{CompilationArtifact, Diagnostic, DiagnosticLevel};
use crate::outside::{blake3_hash, spec_blake3};
use crate::text::{hex_bytes, to_hex};
use vstd::string::StringSliceAdditionalSpecFns;

verus! {

/// The header of the minimal RMIR module: magic "RMIR", version 1, and
/// zero flags, metadata length, instruction count and proof goal count.
pub open spec fn stub_header() -> Seq<u8> {
    seq![0x52u8, 0x4du8, 0x49u8, 0x52u8, 1u8, 0u8, 0u8, 0u8]
        + Seq::new(16, |i: int| 0u8)
}

/// The minimal valid RMIR module: its header followed by the BLAKE3
/// digest of the header.
pub fn create_stub_rmir() -> (r: Vec<u8>)
    ensures
        r@ == stub_header() + spec_blake3(stub_header()),
{
    let mut rmir: Vec<u8> = vec![0x52u8, 0x4du8, 0x49u8, 0x52u8, 1u8, 0u8, 0u8, 0u8];
    let mut i: usize = 0;
    while i < 16
        invariant
            i <= 16,
            rmir@ == seq![0x52u8, 0x4du8, 0x49u8, 0x52u8, 1u8, 0u8, 0u8, 0u8] + Seq::new(i as nat, |k: int| 0u8),
        decreases 16 - i,
    {
        rmir.push(0u8);
        assert(rmir@ =~= seq![0x52u8, 0x4du8, 0x49u8, 0x52u8, 1u8, 0u8, 0u8, 0u8] + Seq::new((i + 1) as nat, |k: int| 0u8));
        i = i + 1;
    }
    assert(rmir@ =~= stub_header());
    let hash = blake3_hash(rmir.as_slice());
    let mut k: usize = 0;
    let ghost head = rmir@;
    while k < hash.len()
        invariant
            k <= hash.len(),
            hash@.len() == 32,
            rmir@ == head + hash@.subrange(0, k as int),
        decreases hash.len() - k,
    {
        rmir.push(hash[k]);
        assert(rmir@ =~= head + hash@.subrange(0, k + 1));
        k = k + 1;
    }
    assert(hash@.subrange(0, 32) =~= hash@);
    rmir
}

/// Compiles source text: hashes it, wraps the minimal RMIR module in an
/// artifact for `backend` and `proof_mode`, and reports an error when the
/// source is empty.
pub fn compile_source(source: &str, source_file: String, backend: &str, proof_mode: &str) -> (a: CompilationArtifact)
    ensures
        a.source_hash@ == hex_bytes(spec_blake3(source.spec_bytes())),
        a.compiler_version@ == "0.1.0"@,
        a.source_file == source_file,
        a.rmir_bytecode@ == stub_header() + spec_blake3(stub_header()),
        a.rmir_hash@ == hex_bytes(spec_blake3(a.rmir_bytecode@)),
        a.backend@ == backend@,
        a.proof_mode@ == proof_mode@,
        a.proof_obligations@ == "{}"@,
        a.diagnostics@.len() == (if source@.len() == 0 { 1int } else { 0int }),
        source@.len() == 0 ==> a.diagnostics@[0].level == DiagnosticLevel::Error
            && a.diagnostics@[0].message@ == "Source file is empty"@
            && a.diagnostics@[0].source_location is None,
{
    let digest = blake3_hash(source.as_bytes());
    let source_hash = to_hex(digest.as_slice());
    let mut artifact = CompilationArtifact::new(
        source_hash,
        String::from_str("0.1.0"),
        source_file,
        create_stub_rmir(),
        String::from_str(backend),
    );
    artifact.proof_mode = String::from_str(proof_mode);
    if source.unicode_len() == 0 {
        artifact.add_diagnostic(DiagnosticLevel::Error, String::from_str("Source file is empty"));
    }
    artifact
}

} // verus!
