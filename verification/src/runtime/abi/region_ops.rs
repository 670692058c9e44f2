//! Region operation codes.

use vstd::prelude::*;

verus! {

pub const ENTER: u8 = 0;
pub const EXIT: u8 = 1;
pub const ALLOCATE: u8 = 2;
pub const DEALLOCATE: u8 = 3;

} // verus!
