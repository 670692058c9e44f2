//! Proof certificates: the ASP and SMT results for a program, its
//! metadata and facts, and a seal over the program hash.

use vstd::prelude::*;
use crate::error::IoError;
use crate::outside::{blake3_hash, spec_blake3};
use crate::timestamp::now_rfc3339;
use crate::prover::asp::AspProof;
use crate::prover::smt::SmtProof;
use vstd::utf8::encode_utf8;
use crate::text::{hex_bytes, to_hex};

verus! {

/// What the certificate is about.
#[derive(Clone, Debug)]
pub struct CertificateMetadata {
    pub program_hash: String,
    pub source_file: String,
    /// RFC 3339 time of creation.
    pub timestamp: String,
}

/// The facts the proofs were run on.
#[derive(Clone, Debug)]
pub struct ProofFacts {
    pub rmir_instructions: Vec<String>,
    pub ownership_facts: Vec<String>,
    pub region_facts: Vec<String>,
    pub capability_facts: Vec<String>,
    pub effect_facts: Vec<String>,
}

/// The answer set result: whether the program is satisfiable, why not when
/// it is not, and the solved program.
#[derive(Clone, Debug)]
pub struct AspProofResult {
    pub satisfiable: bool,
    pub diagnosis: Option<String>,
    pub proof: AspProof,
}

/// The SMT result: whether the constraints are satisfiable, why not when they
/// are not, and the solved constraints.
#[derive(Clone, Debug)]
pub struct SmtProofResult {
    pub satisfiable: bool,
    pub diagnosis: Option<String>,
    pub proof: SmtProof,
}

/// A proof certificate.
#[derive(Clone, Debug)]
pub struct ProofCertificate {
    pub metadata: CertificateMetadata,
    pub facts: ProofFacts,
    pub asp_result: AspProofResult,
    pub smt_result: SmtProofResult,
    /// Empty until the certificate is signed.
    pub signature: String,
}

/// A certificate is valid when it names a program and both proofs are
/// satisfiable.
pub open spec fn valid(c: ProofCertificate) -> bool {
    c.metadata.program_hash@.len() > 0 && c.asp_result.satisfiable && c.smt_result.satisfiable
}

/// The seal of a program hash: the lowercase hexadecimal BLAKE3 digest of
/// its UTF-8 bytes.
pub open spec fn seal_of(program_hash: Seq<char>) -> Seq<char> {
    hex_bytes(spec_blake3(encode_utf8(program_hash)))
}

fn empty_asp() -> (p: AspProof)
    ensures
        p.facts@.len() == 0,
        p.rules@.len() == 0,
        p.answer_set@.len() == 0,
        !p.satisfiable,
{
    AspProof { facts: Vec::new(), rules: Vec::new(), answer_set: Vec::new(), satisfiable: false }
}

fn empty_smt() -> (p: SmtProof)
    ensures
        p.assertions@.len() == 0,
        p.model@.len() == 0,
        !p.satisfiable,
{
    SmtProof { assertions: Vec::new(), model: Vec::new(), satisfiable: false }
}

impl ProofCertificate {
    /// An unsigned certificate for a program and its facts, with both
    /// verdicts unsatisfiable until the solvers report.
    pub fn new(program_hash: String, source_file: String, facts: ProofFacts) -> (c: Self)
        ensures
            c.metadata.program_hash == program_hash,
            c.metadata.source_file == source_file,
            c.facts == facts,
            !c.asp_result.satisfiable && c.asp_result.diagnosis is None,
            !c.smt_result.satisfiable && c.smt_result.diagnosis is None,
            c.signature@.len() == 0,
    {
        ProofCertificate {
            metadata: CertificateMetadata { program_hash, source_file, timestamp: now_rfc3339() },
            facts,
            asp_result: AspProofResult { satisfiable: false, diagnosis: None, proof: empty_asp() },
            smt_result: SmtProofResult { satisfiable: false, diagnosis: None, proof: empty_smt() },
            signature: String::new(),
        }
    }

    /// An unsigned certificate from the two proofs; each verdict is its
    /// proof's satisfiability.
    pub fn generate(program_hash: &str, asp_proof: AspProof, smt_proof: SmtProof) -> (r: Result<Self, IoError>)
        ensures
            r is Ok,
            r->Ok_0.metadata.program_hash@ == program_hash@,
            r->Ok_0.metadata.source_file@.len() == 0,
            r->Ok_0.asp_result.satisfiable == asp_proof.satisfiable,
            r->Ok_0.asp_result.diagnosis is None,
            r->Ok_0.asp_result.proof == asp_proof,
            r->Ok_0.smt_result.satisfiable == smt_proof.satisfiable,
            r->Ok_0.smt_result.diagnosis is None,
            r->Ok_0.smt_result.proof == smt_proof,
            r->Ok_0.facts.rmir_instructions@.len() == 0,
            r->Ok_0.facts.ownership_facts@.len() == 0,
            r->Ok_0.facts.region_facts@.len() == 0,
            r->Ok_0.facts.capability_facts@.len() == 0,
            r->Ok_0.facts.effect_facts@.len() == 0,
            r->Ok_0.signature@.len() == 0,
    {
        let asp_sat = asp_proof.satisfiable;
        let smt_sat = smt_proof.satisfiable;
        let cert = ProofCertificate {
            metadata: CertificateMetadata {
                program_hash: String::from_str(program_hash),
                source_file: String::new(),
                timestamp: now_rfc3339(),
            },
            facts: ProofFacts {
                rmir_instructions: Vec::new(),
                ownership_facts: Vec::new(),
                region_facts: Vec::new(),
                capability_facts: Vec::new(),
                effect_facts: Vec::new(),
            },
            asp_result: AspProofResult { satisfiable: asp_sat, diagnosis: None, proof: asp_proof },
            smt_result: SmtProofResult { satisfiable: smt_sat, diagnosis: None, proof: smt_proof },
            signature: String::new(),
        };
        Ok(cert)
    }

    /// Whether the certificate names a program and both proofs hold.
    pub fn is_valid(&self) -> (b: bool)
        ensures
            b == valid(*self),
    {
        self.metadata.program_hash.as_str().unicode_len() > 0 && self.asp_result.satisfiable
            && self.smt_result.satisfiable
    }

    /// Seals the certificate: the signature becomes the hexadecimal BLAKE3
    /// digest of the program hash. The key is not used.
    pub fn sign(&mut self, _key: &str)
        ensures
            final(self).signature@ == seal_of(old(self).metadata.program_hash@),
            final(self).metadata == old(self).metadata,
            final(self).facts == old(self).facts,
            final(self).asp_result == old(self).asp_result,
            final(self).smt_result == old(self).smt_result,
    {
        let digest = blake3_hash(self.metadata.program_hash.as_str().as_bytes());
        self.signature = to_hex(digest.as_slice());
    }
}

} // verus!
