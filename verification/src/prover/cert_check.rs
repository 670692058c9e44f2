//! The certificate checker: the small component that must be trusted. It
//! checks a certificate's metadata, both verdicts, its validity and its
//! signature, in that order.

use vstd::prelude::*;
use crate::prover::certificate::{ProofCertificate, valid};
use crate::text::{debug_opt, has_infix, opt_view, push_debug_opt, str_contains};

verus! {

/// The first reason a certificate is rejected, if any.
pub open spec fn rejection(c: ProofCertificate) -> Option<Seq<char>> {
    if c.metadata.program_hash@.len() == 0 {
        Some("Program hash missing"@)
    } else if !c.asp_result.satisfiable {
        Some("ASP unsatisfiable: "@ + debug_opt(opt_view(c.asp_result.diagnosis)))
    } else if !c.smt_result.satisfiable {
        Some("SMT unsatisfiable: "@ + debug_opt(opt_view(c.smt_result.diagnosis)))
    } else if !valid(c) {
        Some("Proof certificate is not valid"@)
    } else if c.signature@.len() == 0 {
        Some("Certificate not signed"@)
    } else {
        None
    }
}

/// Checks a certificate offline: `Ok` when nothing rejects it, else the
/// first reason.
pub fn verify_certificate(cert: &ProofCertificate) -> (r: Result<(), String>)
    ensures
        match rejection(*cert) {
            None => r is Ok,
            Some(m) => r is Err && r->Err_0@ == m,
        },
{
    if cert.metadata.program_hash.as_str().unicode_len() == 0 {
        return Err(String::from_str("Program hash missing"));
    }
    if !cert.asp_result.satisfiable {
        let mut m = String::from_str("ASP unsatisfiable: ");
        push_debug_opt(&mut m, &cert.asp_result.diagnosis);
        return Err(m);
    }
    if !cert.smt_result.satisfiable {
        let mut m = String::from_str("SMT unsatisfiable: ");
        push_debug_opt(&mut m, &cert.smt_result.diagnosis);
        return Err(m);
    }
    if !cert.is_valid() {
        return Err(String::from_str("Proof certificate is not valid"));
    }
    if cert.signature.as_str().unicode_len() == 0 {
        return Err(String::from_str("Certificate not signed"));
    }
    Ok(())
}

/// Whether a predicate occurs in an answer set's text.
pub fn check_asp_predicate(answer_set: &str, predicate: &str) -> (b: bool)
    ensures
        b == has_infix(answer_set@, predicate@),
{
    str_contains(answer_set, predicate)
}

/// Whether a formula can be checked against a model: both are non-empty.
pub fn check_smt_formula(model: &str, formula: &str) -> (b: bool)
    ensures
        b == (model@.len() > 0 && formula@.len() > 0),
{
    model.unicode_len() > 0 && formula.unicode_len() > 0
}

/// Law: a certificate that names a program, has both verdicts satisfiable
/// and carries a signature is accepted.
pub proof fn lemma_complete_certificate_accepted(c: ProofCertificate)
    requires
        c.metadata.program_hash@.len() > 0,
        c.asp_result.satisfiable,
        c.smt_result.satisfiable,
        c.signature@.len() > 0,
    ensures
        rejection(c) is None,
{
}

/// Law: an unsigned certificate is never accepted.
pub proof fn lemma_unsigned_rejected(c: ProofCertificate)
    requires
        c.signature@.len() == 0,
    ensures
        rejection(c) is Some,
{
}

} // verus!
