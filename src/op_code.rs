use vstd::prelude::*;

use crate::span::bytes_eq;

verus! {

/// The instruction formats: which operands an instruction takes and where
/// their bits go.
#[derive(Debug, Clone, Copy, PartialEq, Eq, Structural)]
pub enum OpKind {
    /// Three registers: rd, rs1, rs2.
    R,
    /// Two registers and an immediate: rd, rs, imm.
    I,
    /// Two registers and an immediate, in the store layout: rs1, rs2, imm.
    S,
    /// Two registers and a branch target: rs1, rs2, imm.
    B,
}

/// The instructions that the assembler knows.
#[allow(non_camel_case_types)]
#[derive(Debug, Clone, Copy, PartialEq, Eq, Structural)]
pub enum OpCode {
    add,
    sub,
    xor,
    or,
    and,
    sll,
    srl,
    sra,
    slt,
    sltu,
    addi,
    xori,
    ori,
    andi,
    slli,
    srli,
    srai,
    slti,
    sltiu,
    beq,
}

/// Places the fixed fields of an opcode in an instruction word: the base
/// opcode at bits 6:0, funct3 at 14:12 and funct7 at 31:25.
pub open spec fn compose(base: u32, funct3: u32, funct7: u32) -> u32 {
    ((funct7 & 0x7f) << 25) | ((funct3 & 0x7) << 12) | (base & 0x7f)
}

/// The fixed fields (base, funct3, funct7) that a word holds.
pub open spec fn fields_of(w: u32) -> (u32, u32, u32) {
    (w & 0x7f, (w >> 12) & 0x7, (w >> 25) & 0x7f)
}

/// The mnemonic table.
pub open spec fn op_code_of(n: Seq<u8>) -> Option<OpCode> {
    if n == seq!['a' as u8, 'd' as u8, 'd' as u8] {
        Some(OpCode::add)
    } else if n == seq!['s' as u8, 'u' as u8, 'b' as u8] {
        Some(OpCode::sub)
    } else if n == seq!['x' as u8, 'o' as u8, 'r' as u8] {
        Some(OpCode::xor)
    } else if n == seq!['o' as u8, 'r' as u8] {
        Some(OpCode::or)
    } else if n == seq!['a' as u8, 'n' as u8, 'd' as u8] {
        Some(OpCode::and)
    } else if n == seq!['s' as u8, 'l' as u8, 'l' as u8] {
        Some(OpCode::sll)
    } else if n == seq!['s' as u8, 'r' as u8, 'l' as u8] {
        Some(OpCode::srl)
    } else if n == seq!['s' as u8, 'r' as u8, 'a' as u8] {
        Some(OpCode::sra)
    } else if n == seq!['s' as u8, 'l' as u8, 't' as u8] {
        Some(OpCode::slt)
    } else if n == seq!['s' as u8, 'l' as u8, 't' as u8, 'u' as u8] {
        Some(OpCode::sltu)
    } else if n == seq!['a' as u8, 'd' as u8, 'd' as u8, 'i' as u8] {
        Some(OpCode::addi)
    } else if n == seq!['x' as u8, 'o' as u8, 'r' as u8, 'i' as u8] {
        Some(OpCode::xori)
    } else if n == seq!['o' as u8, 'r' as u8, 'i' as u8] {
        Some(OpCode::ori)
    } else if n == seq!['a' as u8, 'n' as u8, 'd' as u8, 'i' as u8] {
        Some(OpCode::andi)
    } else if n == seq!['s' as u8, 'l' as u8, 'l' as u8, 'i' as u8] {
        Some(OpCode::slli)
    } else if n == seq!['s' as u8, 'r' as u8, 'l' as u8, 'i' as u8] {
        Some(OpCode::srli)
    } else if n == seq!['s' as u8, 'r' as u8, 'a' as u8, 'i' as u8] {
        Some(OpCode::srai)
    } else if n == seq!['s' as u8, 'l' as u8, 't' as u8, 'i' as u8] {
        Some(OpCode::slti)
    } else if n == seq!['s' as u8, 'l' as u8, 't' as u8, 'i' as u8, 'u' as u8] {
        Some(OpCode::sltiu)
    } else if n == seq!['b' as u8, 'e' as u8, 'q' as u8] {
        Some(OpCode::beq)
    } else {
        None
    }
}

impl OpCode {
    /// The fixed fields: base opcode, funct3 and funct7 (zero but for the
    /// R format).
    pub open spec fn fixed(self) -> (u32, u32, u32) {
        match self {
            OpCode::add => (0x33, 0x0, 0x00),
            OpCode::sub => (0x33, 0x0, 0x20),
            OpCode::xor => (0x33, 0x4, 0x00),
            OpCode::or => (0x33, 0x6, 0x00),
            OpCode::and => (0x33, 0x7, 0x00),
            OpCode::sll => (0x33, 0x1, 0x00),
            OpCode::srl => (0x33, 0x5, 0x00),
            OpCode::sra => (0x33, 0x5, 0x20),
            OpCode::slt => (0x33, 0x2, 0x00),
            OpCode::sltu => (0x33, 0x3, 0x00),
            OpCode::addi => (0x13, 0x0, 0x00),
            OpCode::xori => (0x13, 0x4, 0x00),
            OpCode::ori => (0x13, 0x6, 0x00),
            OpCode::andi => (0x13, 0x7, 0x00),
            OpCode::slli => (0x13, 0x5, 0x00),
            OpCode::srli => (0x13, 0x5, 0x00),
            OpCode::srai => (0x13, 0x5, 0x00),
            OpCode::slti => (0x13, 0x2, 0x00),
            OpCode::sltiu => (0x13, 0x3, 0x00),
            OpCode::beq => (0x63, 0x0, 0x00),
        }
    }

    pub open spec fn spec_kind(&self) -> OpKind {
        match self {
            OpCode::add => OpKind::R,
            OpCode::sub => OpKind::R,
            OpCode::xor => OpKind::R,
            OpCode::or => OpKind::R,
            OpCode::and => OpKind::R,
            OpCode::sll => OpKind::R,
            OpCode::srl => OpKind::R,
            OpCode::sra => OpKind::R,
            OpCode::slt => OpKind::R,
            OpCode::sltu => OpKind::R,
            OpCode::addi => OpKind::I,
            OpCode::xori => OpKind::I,
            OpCode::ori => OpKind::I,
            OpCode::andi => OpKind::I,
            OpCode::slli => OpKind::I,
            OpCode::srli => OpKind::I,
            OpCode::srai => OpKind::I,
            OpCode::slti => OpKind::I,
            OpCode::sltiu => OpKind::I,
            OpCode::beq => OpKind::B,
        }
    }

    /// The word that holds this opcode's fixed fields and nothing else.
    pub open spec fn spec_mask(&self) -> u32 {
        compose(self.fixed().0, self.fixed().1, self.fixed().2)
    }

    /// The three shift-immediate instructions, whose fixed fields are the same.
    pub open spec fn is_shift_imm(self) -> bool {
        self == OpCode::slli || self == OpCode::srli || self == OpCode::srai
    }

    pub fn fixed_bits(&self) -> (r: (u32, u32, u32))
        ensures
            r == self.fixed(),
    {
        match self {
            Self::add => (0x33, 0x0, 0x00),
            Self::sub => (0x33, 0x0, 0x20),
            Self::xor => (0x33, 0x4, 0x00),
            Self::or => (0x33, 0x6, 0x00),
            Self::and => (0x33, 0x7, 0x00),
            Self::sll => (0x33, 0x1, 0x00),
            Self::srl => (0x33, 0x5, 0x00),
            Self::sra => (0x33, 0x5, 0x20),
            Self::slt => (0x33, 0x2, 0x00),
            Self::sltu => (0x33, 0x3, 0x00),
            Self::addi => (0x13, 0x0, 0x00),
            Self::xori => (0x13, 0x4, 0x00),
            Self::ori => (0x13, 0x6, 0x00),
            Self::andi => (0x13, 0x7, 0x00),
            Self::slli => (0x13, 0x5, 0x00),
            Self::srli => (0x13, 0x5, 0x00),
            Self::srai => (0x13, 0x5, 0x00),
            Self::slti => (0x13, 0x2, 0x00),
            Self::sltiu => (0x13, 0x3, 0x00),
            Self::beq => (0x63, 0x0, 0x00),
        }
    }

    #[verifier::when_used_as_spec(spec_kind)]
    pub fn kind(&self) -> (r: OpKind)
        ensures
            r == self.spec_kind(),
    {
        match self {
            Self::add => OpKind::R,
            Self::sub => OpKind::R,
            Self::xor => OpKind::R,
            Self::or => OpKind::R,
            Self::and => OpKind::R,
            Self::sll => OpKind::R,
            Self::srl => OpKind::R,
            Self::sra => OpKind::R,
            Self::slt => OpKind::R,
            Self::sltu => OpKind::R,
            Self::addi => OpKind::I,
            Self::xori => OpKind::I,
            Self::ori => OpKind::I,
            Self::andi => OpKind::I,
            Self::slli => OpKind::I,
            Self::srli => OpKind::I,
            Self::srai => OpKind::I,
            Self::slti => OpKind::I,
            Self::sltiu => OpKind::I,
            Self::beq => OpKind::B,
        }
    }

    #[verifier::when_used_as_spec(spec_mask)]
    pub fn mask(&self) -> (r: u32)
        ensures
            r == self.spec_mask(),
    {
        let (base, funct3, funct7) = self.fixed_bits();
        ((funct7 & 0x7f) << 25) | ((funct3 & 0x7) << 12) | (base & 0x7f)
    }

    /// The opcode whose mnemonic is `s[i..j]`, if any.
    pub fn parse(s: &[u8], i: usize, j: usize) -> (r: Option<OpCode>)
        requires
            i <= j <= s@.len(),
        ensures
            r == op_code_of(s@.subrange(i as int, j as int)),
    {
        if bytes_eq(s, i, j, &['a' as u8, 'd' as u8, 'd' as u8]) {
            Some(OpCode::add)
        } else if bytes_eq(s, i, j, &['s' as u8, 'u' as u8, 'b' as u8]) {
            Some(OpCode::sub)
        } else if bytes_eq(s, i, j, &['x' as u8, 'o' as u8, 'r' as u8]) {
            Some(OpCode::xor)
        } else if bytes_eq(s, i, j, &['o' as u8, 'r' as u8]) {
            Some(OpCode::or)
        } else if bytes_eq(s, i, j, &['a' as u8, 'n' as u8, 'd' as u8]) {
            Some(OpCode::and)
        } else if bytes_eq(s, i, j, &['s' as u8, 'l' as u8, 'l' as u8]) {
            Some(OpCode::sll)
        } else if bytes_eq(s, i, j, &['s' as u8, 'r' as u8, 'l' as u8]) {
            Some(OpCode::srl)
        } else if bytes_eq(s, i, j, &['s' as u8, 'r' as u8, 'a' as u8]) {
            Some(OpCode::sra)
        } else if bytes_eq(s, i, j, &['s' as u8, 'l' as u8, 't' as u8]) {
            Some(OpCode::slt)
        } else if bytes_eq(s, i, j, &['s' as u8, 'l' as u8, 't' as u8, 'u' as u8]) {
            Some(OpCode::sltu)
        } else if bytes_eq(s, i, j, &['a' as u8, 'd' as u8, 'd' as u8, 'i' as u8]) {
            Some(OpCode::addi)
        } else if bytes_eq(s, i, j, &['x' as u8, 'o' as u8, 'r' as u8, 'i' as u8]) {
            Some(OpCode::xori)
        } else if bytes_eq(s, i, j, &['o' as u8, 'r' as u8, 'i' as u8]) {
            Some(OpCode::ori)
        } else if bytes_eq(s, i, j, &['a' as u8, 'n' as u8, 'd' as u8, 'i' as u8]) {
            Some(OpCode::andi)
        } else if bytes_eq(s, i, j, &['s' as u8, 'l' as u8, 'l' as u8, 'i' as u8]) {
            Some(OpCode::slli)
        } else if bytes_eq(s, i, j, &['s' as u8, 'r' as u8, 'l' as u8, 'i' as u8]) {
            Some(OpCode::srli)
        } else if bytes_eq(s, i, j, &['s' as u8, 'r' as u8, 'a' as u8, 'i' as u8]) {
            Some(OpCode::srai)
        } else if bytes_eq(s, i, j, &['s' as u8, 'l' as u8, 't' as u8, 'i' as u8]) {
            Some(OpCode::slti)
        } else if bytes_eq(s, i, j, &['s' as u8, 'l' as u8, 't' as u8, 'i' as u8, 'u' as u8]) {
            Some(OpCode::sltiu)
        } else if bytes_eq(s, i, j, &['b' as u8, 'e' as u8, 'q' as u8]) {
            Some(OpCode::beq)
        } else {
            None
        }
    }
}

/// The fixed fields of an opcode read back out of its word.
pub proof fn lemma_fixed_fields_round_trip(op: OpCode)
    ensures
        fields_of(op.spec_mask()) == op.fixed(),
{
    let (b, f3, f7) = op.fixed();
    assert(b < 0x80 && f3 < 8 && f7 < 0x80);
    let w = compose(b, f3, f7);
    assert(w & 0x7f == b && (w >> 12) & 0x7 == f3 && (w >> 25) & 0x7f == f7) by (bit_vector)
        requires
            w == ((f7 & 0x7f) << 25) | ((f3 & 0x7) << 12) | (b & 0x7f),
            b < 0x80,
            f3 < 8,
            f7 < 0x80,
    ;
}

/// Decoding the fixed fields of an opcode's word gives back that opcode:
/// no other opcode has the same fixed fields. The shift-immediate
/// instructions are the exception, as they share theirs.
pub proof fn lemma_fixed_fields_identify(a: OpCode, b: OpCode)
    requires
        !a.is_shift_imm(),
        fields_of(b.spec_mask()) == fields_of(a.spec_mask()),
    ensures
        b == a,
{
    lemma_fixed_fields_round_trip(a);
    lemma_fixed_fields_round_trip(b);
}

} // verus!
