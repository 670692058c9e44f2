//! Effect kind codes.

use vstd::prelude::*;

verus! {

pub const IO: u8 = 0;
pub const STATE: u8 = 1;
pub const ASYNC: u8 = 2;
pub const REGION: u8 = 3;
pub const GC: u8 = 4;
pub const EXCEPTION: u8 = 5;
pub const FFI: u8 = 6;
pub const CONCURRENCY: u8 = 7;

} // verus!
