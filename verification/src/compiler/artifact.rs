//! The compilation artifact: everything the pipeline produces for one
//! source file, with its hashes and diagnostics.

use vstd::prelude::*;
use crate::outside::{blake3_hash, spec_blake3};
use crate::timestamp::now_rfc3339;
use crate::text::{hex_bytes, to_hex};

verus! {

/// The severity of a diagnostic.
#[derive(Clone, Copy, Debug, PartialEq, Eq, Structural)]
pub enum DiagnosticLevel {
    Error,
    Warning,
    Info,
}

/// A place in a source file.
#[derive(Clone, Debug)]
pub struct SourceLocation {
    pub file: String,
    pub line: u32,
    pub column: u32,
}

/// An error, warning or note produced by the compiler.
#[derive(Clone, Debug)]
pub struct Diagnostic {
    pub level: DiagnosticLevel,
    pub message: String,
    pub source_location: Option<SourceLocation>,
}

/// The complete output of a compilation.
///
/// `proof_obligations` holds the obligations as JSON text, and
/// `backend_outputs` the backend outputs as (name, bytes) pairs with
/// distinct names.
#[derive(Clone, Debug)]
pub struct CompilationArtifact {
    pub source_hash: String,
    pub typed_ir_hash: String,
    /// Lowercase hexadecimal BLAKE3 digest of `rmir_bytecode`.
    pub rmir_hash: String,
    pub obligation_hash: String,
    pub artifact_hash: Option<String>,
    pub compiler_version: String,
    /// "native", "managed", "wasm" or "proof-only".
    pub backend: String,
    /// "generate", "verify" or "none".
    pub proof_mode: String,
    pub source_file: String,
    pub rmir_bytecode: Vec<u8>,
    pub proof_obligations: String,
    pub backend_outputs: Vec<(String, Vec<u8>)>,
    pub diagnostics: Vec<Diagnostic>,
    /// RFC 3339 time of creation.
    pub timestamp: String,
}

/// Whether some diagnostic is an error.
pub open spec fn any_error(ds: Seq<Diagnostic>) -> bool {
    exists|i: int| 0 <= i < ds.len() && ds[i].level == DiagnosticLevel::Error
}

impl CompilationArtifact {
    /// A fresh artifact for RMIR bytecode: its hash computed, proof mode
    /// "generate", no obligations (`{}`), outputs or diagnostics, and the
    /// current time as timestamp.
    pub fn new(
        source_hash: String,
        compiler_version: String,
        source_file: String,
        rmir_bytecode: Vec<u8>,
        backend: String,
    ) -> (a: Self)
        ensures
            a.source_hash == source_hash,
            a.typed_ir_hash@ == Seq::<char>::empty(),
            a.rmir_hash@ == hex_bytes(spec_blake3(rmir_bytecode@)),
            a.obligation_hash@ == Seq::<char>::empty(),
            a.artifact_hash is None,
            a.compiler_version == compiler_version,
            a.backend == backend,
            a.proof_mode@ == "generate"@,
            a.source_file == source_file,
            a.rmir_bytecode@ == rmir_bytecode@,
            a.proof_obligations@ == "{}"@,
            a.backend_outputs@.len() == 0,
            a.diagnostics@.len() == 0,
    {
        let digest = blake3_hash(rmir_bytecode.as_slice());
        let rmir_hash = to_hex(digest.as_slice());
        CompilationArtifact {
            source_hash,
            typed_ir_hash: String::new(),
            rmir_hash,
            obligation_hash: String::new(),
            artifact_hash: None,
            compiler_version,
            backend,
            proof_mode: String::from_str("generate"),
            source_file,
            rmir_bytecode,
            proof_obligations: String::from_str("{}"),
            backend_outputs: Vec::new(),
            diagnostics: Vec::new(),
            timestamp: now_rfc3339(),
        }
    }

    /// Appends a diagnostic without a source location.
    pub fn add_diagnostic(&mut self, level: DiagnosticLevel, message: String)
        ensures
            final(self).diagnostics@ == old(self).diagnostics@.push(
                Diagnostic { level, message, source_location: None },
            ),
            *final(self) == (CompilationArtifact { diagnostics: final(self).diagnostics, ..*old(self) }),
    {
        self.diagnostics.push(Diagnostic { level, message, source_location: None });
    }

    /// Whether some diagnostic is an error.
    pub fn has_errors(&self) -> (r: bool)
        ensures
            r == any_error(self.diagnostics@),
    {
        let mut i: usize = 0;
        while i < self.diagnostics.len()
            invariant
                i <= self.diagnostics.len(),
                forall|j: int| 0 <= j < i ==> self.diagnostics@[j].level != DiagnosticLevel::Error,
            decreases self.diagnostics.len() - i,
        {
            if self.diagnostics[i].level == DiagnosticLevel::Error {
                return true;
            }
            i = i + 1;
        }
        false
    }
}

} // verus!
