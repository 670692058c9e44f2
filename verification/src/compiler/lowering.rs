//! Lowering: RMIR to a machine-independent form in which ownership
//! invariants become explicit guards.

pub mod normal_mir;
