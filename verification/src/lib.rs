//! An interpreter core for an 8-bit virtual machine: the instruction
//! decoder, the execution engine and the sprite compositor, with their
//! behaviour stated as contracts.

pub mod context;
pub mod display;
pub mod instructions;
pub mod lemmas;
pub mod parser;
pub mod random;
pub mod state;
