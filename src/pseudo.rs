use vstd::prelude::*;

use crate::op_code::OpCode;
use crate::span::bytes_eq;

verus! {

/// Pseudo-instructions: mnemonics that stand for one real instruction with
/// some operands fixed.
#[allow(non_camel_case_types)]
#[derive(Debug, Clone, Copy, PartialEq, Eq, Structural)]
pub enum Pseudo {
    /// `mv rd, rs` is `addi rd, rs, 0`.
    mv,
}

/// The pseudo-instruction table.
pub open spec fn pseudo_of(n: Seq<u8>) -> Option<Pseudo> {
    if n == seq!['m' as u8, 'v' as u8] {
        Some(Pseudo::mv)
    } else {
        None
    }
}

impl Pseudo {
    pub open spec fn spec_op_code(&self) -> OpCode {
        match self {
            Pseudo::mv => OpCode::addi,
        }
    }

    /// The real instruction that this one expands to.
    #[verifier::when_used_as_spec(spec_op_code)]
    pub fn op_code(&self) -> (r: OpCode)
        ensures
            r == self.spec_op_code(),
    {
        match self {
            Pseudo::mv => OpCode::addi,
        }
    }

    /// The pseudo-instruction whose mnemonic is `s[i..j]`, if any.
    pub fn parse(s: &[u8], i: usize, j: usize) -> (r: Option<Pseudo>)
        requires
            i <= j <= s@.len(),
        ensures
            r == pseudo_of(s@.subrange(i as int, j as int)),
    {
        if bytes_eq(s, i, j, &['m' as u8, 'v' as u8]) {
            Some(Pseudo::mv)
        } else {
            None
        }
    }
}

} // verus!
