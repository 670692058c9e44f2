//! Frontend: source text to tokens and a function syntax tree, the
//! ownership analysis over ownership facts, and the elaboration context.

pub mod parser;
pub mod ownership;
pub mod elaboration;
