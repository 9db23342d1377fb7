//! A Brainfuck interpreter whose execution engine is specified and proved with Verus.
//!
//! The engine is a pure state machine: a [`machine::Brainfuck`] holds the tape, the
//! program buffer and the program counter, and each call of `step` executes one
//! instruction. Input bytes are handed in and output bytes handed back, so the
//! caller decides where they come from and go to.
pub mod brackets;
pub mod input;
pub mod laws;
pub mod instr;
pub mod machine;
pub mod tape;
