//! The binary interface between native code, managed handlers and the
//! sandbox: fixed-size request and response records and their codes.

pub mod effect_kinds;
pub mod region_ops;
pub mod io_ops;

use vstd::prelude::*;

verus! {

/// An effect request record.
#[derive(Debug)]
pub struct EffectRequestAbi {
    pub request_id: u32,
    pub effect_kind: u8,
    pub payload_offset: u32,
    pub payload_size: u32,
}

/// An effect response record.
#[derive(Debug)]
pub struct EffectResponseAbi {
    pub request_id: u32,
    pub status: i32,
    pub result_offset: u32,
    pub result_size: u32,
}

} // verus!
