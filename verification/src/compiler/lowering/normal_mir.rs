//! Normal MIR: lowered RMIR, in which regions are explicit guards and
//! each instruction carries its proof obligations.

use vstd::prelude::*;

verus! {

/// One lowered instruction with the obligations attached to it.
#[derive(Debug)]
pub struct LoweredInstruction {
    pub id: u32,
    pub kind: String,
    pub proof_obligations: Vec<String>,
}

} // verus!
