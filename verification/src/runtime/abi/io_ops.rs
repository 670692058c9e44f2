//! IO operation codes.

use vstd::prelude::*;

verus! {

pub const READ: u8 = 0;
pub const WRITE: u8 = 1;
pub const OPEN: u8 = 2;
pub const CLOSE: u8 = 3;

} // verus!
