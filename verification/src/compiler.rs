//! The compiler: source text to RMIR, the proof-carrying intermediate
//! representation, its binary format, the compilation artifact and the
//! pipeline that produces it.

pub mod frontend;
pub mod rmir;
pub mod lowering;
pub mod artifact;
pub mod pipeline;
