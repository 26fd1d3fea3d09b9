//! An assembler for a small RISC-V instruction set: source text is parsed
//! into instructions and labels (`program::Program::parse`), then each
//! instruction is encoded into its 32-bit word (`program::Program::generate`).
//!
//! Modules, from the leaves up: `span` (positions and byte classes), `error`,
//! `reg` (register names), `op_code` and `pseudo` (mnemonic tables), `imm`
//! (immediates), `instr` (instructions: grammar and encoding) and `program`
//! (lines, labels, and the two passes).
use vstd::prelude::*;

pub mod error;
pub mod span;
pub mod reg;
pub mod op_code;
pub mod pseudo;
pub mod imm;
pub mod instr;
pub mod program;
