use vstd::prelude::*;

use crate::error::{fail, AsmError, AsmErrorKind};
use crate::span::{bytes_eq, scan, scan_class, Class};

verus! {

/// An architectural register, by index.
#[derive(Debug, Clone, Copy)]
pub struct Reg(pub u32);

/// The register table: the index that each register name stands for.
/// `s0` and `fp` both name register 8.
pub open spec fn reg_index(n: Seq<u8>) -> Option<u32> {
    if n == seq!['z' as u8, 'e' as u8, 'r' as u8, 'o' as u8] {
        Some(0u32)
    } else if n == seq!['r' as u8, 'a' as u8] {
        Some(1u32)
    } else if n == seq!['s' as u8, 'p' as u8] {
        Some(2u32)
    } else if n == seq!['g' as u8, 'p' as u8] {
        Some(3u32)
    } else if n == seq!['t' as u8, 'p' as u8] {
        Some(4u32)
    } else if n == seq!['t' as u8, '0' as u8] {
        Some(5u32)
    } else if n == seq!['t' as u8, '1' as u8] {
        Some(6u32)
    } else if n == seq!['t' as u8, '2' as u8] {
        Some(7u32)
    } else if n == seq!['s' as u8, '0' as u8] {
        Some(8u32)
    } else if n == seq!['f' as u8, 'p' as u8] {
        Some(8u32)
    } else if n == seq!['s' as u8, '1' as u8] {
        Some(9u32)
    } else if n == seq!['a' as u8, '0' as u8] {
        Some(10u32)
    } else if n == seq!['a' as u8, '1' as u8] {
        Some(11u32)
    } else if n == seq!['a' as u8, '2' as u8] {
        Some(12u32)
    } else if n == seq!['a' as u8, '3' as u8] {
        Some(13u32)
    } else if n == seq!['a' as u8, '4' as u8] {
        Some(14u32)
    } else if n == seq!['a' as u8, '5' as u8] {
        Some(15u32)
    } else if n == seq!['a' as u8, '6' as u8] {
        Some(16u32)
    } else if n == seq!['a' as u8, '7' as u8] {
        Some(17u32)
    } else if n == seq!['s' as u8, '2' as u8] {
        Some(18u32)
    } else if n == seq!['s' as u8, '3' as u8] {
        Some(19u32)
    } else if n == seq!['s' as u8, '4' as u8] {
        Some(20u32)
    } else if n == seq!['s' as u8, '5' as u8] {
        Some(21u32)
    } else if n == seq!['s' as u8, '6' as u8] {
        Some(22u32)
    } else if n == seq!['s' as u8, '7' as u8] {
        Some(23u32)
    } else if n == seq!['s' as u8, '8' as u8] {
        Some(24u32)
    } else if n == seq!['s' as u8, '9' as u8] {
        Some(25u32)
    } else if n == seq!['s' as u8, '1' as u8, '0' as u8] {
        Some(26u32)
    } else if n == seq!['s' as u8, '1' as u8, '1' as u8] {
        Some(27u32)
    } else if n == seq!['t' as u8, '3' as u8] {
        Some(28u32)
    } else if n == seq!['t' as u8, '4' as u8] {
        Some(29u32)
    } else if n == seq!['t' as u8, '5' as u8] {
        Some(30u32)
    } else if n == seq!['t' as u8, '6' as u8] {
        Some(31u32)
    } else {
        None
    }
}

/// What a register operand that starts at `p`, in a line that ends at `e`,
/// reads as: the register and where the operand ends.
pub open spec fn spec_reg(s: Seq<u8>, p: usize, e: usize) -> Result<(Reg, usize), AsmError> {
    let q = scan(s, p as int, e as int, Class::AlNum);
    match reg_index(s.subrange(p as int, q)) {
        Some(x) => Ok((Reg(x), q as usize)),
        None => Err(fail(s, AsmErrorKind::InvalidReg, p as int, q - p)),
    }
}

impl Reg {
    pub fn idx(&self) -> (r: u32)
        ensures
            r == self.0,
    {
        self.0
    }

    /// The index of the register that the name `s[i..j]` stands for, if any.
    pub fn lookup(s: &[u8], i: usize, j: usize) -> (r: Option<u32>)
        requires
            i <= j <= s@.len(),
        ensures
            r == reg_index(s@.subrange(i as int, j as int)),
    {
        if bytes_eq(s, i, j, &['z' as u8, 'e' as u8, 'r' as u8, 'o' as u8]) {
            Some(0)
        } else if bytes_eq(s, i, j, &['r' as u8, 'a' as u8]) {
            Some(1)
        } else if bytes_eq(s, i, j, &['s' as u8, 'p' as u8]) {
            Some(2)
        } else if bytes_eq(s, i, j, &['g' as u8, 'p' as u8]) {
            Some(3)
        } else if bytes_eq(s, i, j, &['t' as u8, 'p' as u8]) {
            Some(4)
        } else if bytes_eq(s, i, j, &['t' as u8, '0' as u8]) {
            Some(5)
        } else if bytes_eq(s, i, j, &['t' as u8, '1' as u8]) {
            Some(6)
        } else if bytes_eq(s, i, j, &['t' as u8, '2' as u8]) {
            Some(7)
        } else if bytes_eq(s, i, j, &['s' as u8, '0' as u8]) {
            Some(8)
        } else if bytes_eq(s, i, j, &['f' as u8, 'p' as u8]) {
            Some(8)
        } else if bytes_eq(s, i, j, &['s' as u8, '1' as u8]) {
            Some(9)
        } else if bytes_eq(s, i, j, &['a' as u8, '0' as u8]) {
            Some(10)
        } else if bytes_eq(s, i, j, &['a' as u8, '1' as u8]) {
            Some(11)
        } else if bytes_eq(s, i, j, &['a' as u8, '2' as u8]) {
            Some(12)
        } else if bytes_eq(s, i, j, &['a' as u8, '3' as u8]) {
            Some(13)
        } else if bytes_eq(s, i, j, &['a' as u8, '4' as u8]) {
            Some(14)
        } else if bytes_eq(s, i, j, &['a' as u8, '5' as u8]) {
            Some(15)
        } else if bytes_eq(s, i, j, &['a' as u8, '6' as u8]) {
            Some(16)
        } else if bytes_eq(s, i, j, &['a' as u8, '7' as u8]) {
            Some(17)
        } else if bytes_eq(s, i, j, &['s' as u8, '2' as u8]) {
            Some(18)
        } else if bytes_eq(s, i, j, &['s' as u8, '3' as u8]) {
            Some(19)
        } else if bytes_eq(s, i, j, &['s' as u8, '4' as u8]) {
            Some(20)
        } else if bytes_eq(s, i, j, &['s' as u8, '5' as u8]) {
            Some(21)
        } else if bytes_eq(s, i, j, &['s' as u8, '6' as u8]) {
            Some(22)
        } else if bytes_eq(s, i, j, &['s' as u8, '7' as u8]) {
            Some(23)
        } else if bytes_eq(s, i, j, &['s' as u8, '8' as u8]) {
            Some(24)
        } else if bytes_eq(s, i, j, &['s' as u8, '9' as u8]) {
            Some(25)
        } else if bytes_eq(s, i, j, &['s' as u8, '1' as u8, '0' as u8]) {
            Some(26)
        } else if bytes_eq(s, i, j, &['s' as u8, '1' as u8, '1' as u8]) {
            Some(27)
        } else if bytes_eq(s, i, j, &['t' as u8, '3' as u8]) {
            Some(28)
        } else if bytes_eq(s, i, j, &['t' as u8, '4' as u8]) {
            Some(29)
        } else if bytes_eq(s, i, j, &['t' as u8, '5' as u8]) {
            Some(30)
        } else if bytes_eq(s, i, j, &['t' as u8, '6' as u8]) {
            Some(31)
        } else {
            None
        }
    }

    /// Reads a register operand at `p`, in a line that ends at `e`.
    pub fn parse(s: &[u8], p: usize, e: usize) -> (r: Result<(Reg, usize), AsmError>)
        requires
            p <= e <= s@.len() <= isize::MAX,
        ensures
            r == spec_reg(s@, p, e),
            r matches Ok((_, q)) ==> p <= q <= e,
    {
        let q = scan_class(s, p, e, Class::AlNum);
        match Reg::lookup(s, p, q) {
            Some(x) => Ok((Reg(x), q)),
            None => Err(AsmError::at(s, AsmErrorKind::InvalidReg, p, q - p)),
        }
    }
}

/// Register 8 has two names: `s0` and `fp`.
pub proof fn lemma_frame_pointer_aliases()
    ensures
        reg_index(seq!['s' as u8, '0' as u8]) == Some(8u32),
        reg_index(seq!['f' as u8, 'p' as u8]) == Some(8u32),
{
}

/// Every register name stands for an index in `0..32`.
pub proof fn lemma_reg_index_range(n: Seq<u8>)
    ensures
        reg_index(n) matches Some(x) ==> x < 32,
{
}

} // verus!
