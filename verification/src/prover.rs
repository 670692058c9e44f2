//! The discrete proof engine front end: ASP facts and rules for ownership
//! and regions, SMT constraints for numeric bounds, proof obligations, and
//! proof certificates with their checker.

pub mod asp;
pub mod smt;
pub mod obligations;
pub mod certificate;
pub mod cert_check;
