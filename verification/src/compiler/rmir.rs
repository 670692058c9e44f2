//! RMIR: instructions, the execution state machine, capability and effect
//! tracking, and the binary codec.

pub mod ir;
pub mod state;
pub mod capability;
pub mod effect;
pub mod format;
pub mod encoder;
pub mod decoder;
