use vstd::prelude::*;

use crate::error::{fail, AsmError, AsmErrorKind};
use crate::imm::{spec_imm, spec_resolve, Imm};
use crate::program::Program;
use crate::op_code::{op_code_of, OpCode, OpKind};
use crate::pseudo::{pseudo_of, Pseudo};
use crate::reg::{spec_reg, Reg};
use crate::span::{scan, scan_class, Class};

verus! {

/// Operands of the R format.
#[derive(Debug, Clone, Copy)]
pub struct InstrR {
    pub rd: Reg,
    pub rs1: Reg,
    pub rs2: Reg,
}

/// Operands of the I format.
#[derive(Debug, Clone, Copy)]
pub struct InstrI {
    pub rd: Reg,
    pub rs: Reg,
    pub imm: Imm,
}

/// Operands of the S format.
#[derive(Debug, Clone, Copy)]
pub struct InstrS {
    pub rs1: Reg,
    pub rs2: Reg,
    pub imm: Imm,
}

/// Operands of the B format; the immediate is the branch target.
#[derive(Debug, Clone, Copy)]
pub struct InstrB {
    pub rs1: Reg,
    pub rs2: Reg,
    pub imm: Imm,
}

/// The operands of an instruction, in the shape of its format.
#[derive(Debug, Clone, Copy)]
pub enum Operands {
    R(InstrR),
    I(InstrI),
    S(InstrS),
    B(InstrB),
}

/// A parsed instruction.
#[derive(Debug, Clone, Copy)]
pub struct Instr {
    pub op_code: OpCode,
    pub operands: Operands,
}

impl Operands {
    /// The format that these operands have.
    pub open spec fn kind(self) -> OpKind {
        match self {
            Operands::R(_) => OpKind::R,
            Operands::I(_) => OpKind::I,
            Operands::S(_) => OpKind::S,
            Operands::B(_) => OpKind::B,
        }
    }
}

impl Pseudo {
    /// The instruction that `self rd, rs` stands for.
    pub open spec fn expand(self, rd: Reg, rs: Reg) -> Instr {
        match self {
            Pseudo::mv => Instr {
                op_code: OpCode::addi,
                operands: Operands::I(InstrI { rd, rs, imm: Imm::Val(0) }),
            },
        }
    }
}

/// After an operand at `p`: optional blanks, a comma, optional blanks.
/// Where the comma is missing, the error is of kind `kind`.
pub open spec fn spec_sep(s: Seq<u8>, p: usize, e: usize, kind: AsmErrorKind) -> Result<
    usize,
    AsmError,
> {
    let q = scan(s, p as int, e as int, Class::Space);
    if q < e && s[q] == ',' as u8 {
        Ok(scan(s, q + 1, e as int, Class::Space) as usize)
    } else {
        Err(fail(s, kind, q, 0))
    }
}

/// Two register operands separated by a comma.
pub open spec fn spec_two_regs(s: Seq<u8>, p: usize, e: usize, kind: AsmErrorKind) -> Result<
    (Reg, Reg, usize),
    AsmError,
> {
    match spec_reg(s, p, e) {
        Err(x) => Err(x),
        Ok((a, p1)) => match spec_sep(s, p1, e, kind) {
            Err(x) => Err(x),
            Ok(p2) => match spec_reg(s, p2, e) {
                Err(x) => Err(x),
                Ok((b, p3)) => Ok((a, b, p3)),
            },
        },
    }
}

/// The operand list of an instruction of format `kind`: two registers, a
/// comma, then a register (R) or an immediate (I, S, B).
pub open spec fn spec_operands(s: Seq<u8>, p: usize, e: usize, kind: OpKind) -> Result<
    (Operands, usize),
    AsmError,
> {
    match spec_two_regs(s, p, e, AsmErrorKind::InvalidInstr) {
        Err(x) => Err(x),
        Ok((a, b, p3)) => match spec_sep(s, p3, e, AsmErrorKind::InvalidInstr) {
            Err(x) => Err(x),
            Ok(p4) => if kind == OpKind::R {
                match spec_reg(s, p4, e) {
                    Err(x) => Err(x),
                    Ok((c, q)) => Ok((Operands::R(InstrR { rd: a, rs1: b, rs2: c }), q)),
                }
            } else {
                match spec_imm(s, p4, e) {
                    Err(x) => Err(x),
                    Ok((m, q)) => Ok(
                        (
                            match kind {
                                OpKind::I => Operands::I(InstrI { rd: a, rs: b, imm: m }),
                                OpKind::S => Operands::S(InstrS { rs1: a, rs2: b, imm: m }),
                                _ => Operands::B(InstrB { rs1: a, rs2: b, imm: m }),
                            },
                            q,
                        ),
                    ),
                }
            },
        },
    }
}

/// An instruction at `p`: a mnemonic, blanks, and the operands that the
/// mnemonic asks for. Pseudo-instructions are expanded here.
pub open spec fn spec_instr(s: Seq<u8>, p: usize, e: usize) -> Result<(Instr, usize), AsmError> {
    let m = scan(s, p as int, e as int, Class::Alpha);
    let w = scan(s, m, e as int, Class::Space);
    let name = s.subrange(p as int, m);
    match pseudo_of(name) {
        Some(ps) => if w == m {
            Err(fail(s, AsmErrorKind::InvalidPseudo, m, 0))
        } else {
            match spec_two_regs(s, w as usize, e, AsmErrorKind::InvalidPseudo) {
                Err(x) => Err(x),
                Ok((a, b, q)) => Ok((ps.expand(a, b), q)),
            }
        },
        None => match op_code_of(name) {
            Some(op) => if w == m {
                Err(fail(s, AsmErrorKind::InvalidInstr, m, 0))
            } else {
                match spec_operands(s, w as usize, e, op.kind()) {
                    Err(x) => Err(x),
                    Ok((ops, q)) => Ok((Instr { op_code: op, operands: ops }, q)),
                }
            },
            None => Err(fail(s, AsmErrorKind::InvalidOpCode, p as int, m - p)),
        },
    }
}

impl Pseudo {
    /// The instruction that `self rd, rs` stands for.
    pub fn expand_exec(&self, rd: Reg, rs: Reg) -> (r: Instr)
        ensures
            r == self.expand(rd, rs),
    {
        match self {
            Pseudo::mv => Instr {
                op_code: OpCode::addi,
                operands: Operands::I(InstrI { rd, rs, imm: Imm::Val(0) }),
            },
        }
    }
}

/// Reads the separator between two operands.
fn parse_sep(s: &[u8], p: usize, e: usize, kind: AsmErrorKind) -> (r: Result<usize, AsmError>)
    requires
        p <= e <= s@.len() <= isize::MAX,
    ensures
        r == spec_sep(s@, p, e, kind),
        r matches Ok(q) ==> p <= q <= e,
{
    let q = scan_class(s, p, e, Class::Space);
    if q < e && s[q] == ',' as u8 {
        Ok(scan_class(s, q + 1, e, Class::Space))
    } else {
        Err(AsmError::at(s, kind, q, 0))
    }
}

/// Reads two register operands separated by a comma.
fn parse_two_regs(s: &[u8], p: usize, e: usize, kind: AsmErrorKind) -> (r: Result<
    (Reg, Reg, usize),
    AsmError,
>)
    requires
        p <= e <= s@.len() <= isize::MAX,
    ensures
        r == spec_two_regs(s@, p, e, kind),
        r matches Ok((_, _, q)) ==> p <= q <= e,
{
    let (a, p1) = match Reg::parse(s, p, e) {
        Ok(x) => x,
        Err(x) => return Err(x),
    };
    let p2 = match parse_sep(s, p1, e, kind) {
        Ok(x) => x,
        Err(x) => return Err(x),
    };
    match Reg::parse(s, p2, e) {
        Ok((b, p3)) => Ok((a, b, p3)),
        Err(x) => Err(x),
    }
}

impl OpKind {
    /// Reads the operand list of an instruction of this format at `p`.
    pub fn parse(&self, s: &[u8], p: usize, e: usize) -> (r: Result<(Operands, usize), AsmError>)
        requires
            p <= e <= s@.len() <= isize::MAX,
        ensures
            r == spec_operands(s@, p, e, *self),
            r matches Ok((ops, q)) ==> p <= q <= e && ops.kind() == *self && ops.within(s@),
    {
        let (a, b, p3) = match parse_two_regs(s, p, e, AsmErrorKind::InvalidInstr) {
            Ok(x) => x,
            Err(x) => return Err(x),
        };
        let p4 = match parse_sep(s, p3, e, AsmErrorKind::InvalidInstr) {
            Ok(x) => x,
            Err(x) => return Err(x),
        };
        match self {
            OpKind::R => match Reg::parse(s, p4, e) {
                Ok((c, q)) => Ok((Operands::R(InstrR { rd: a, rs1: b, rs2: c }), q)),
                Err(x) => Err(x),
            },
            _ => match Imm::parse(s, p4, e) {
                Ok((m, q)) => Ok(
                    (
                        match self {
                            OpKind::I => Operands::I(InstrI { rd: a, rs: b, imm: m }),
                            OpKind::S => Operands::S(InstrS { rs1: a, rs2: b, imm: m }),
                            _ => Operands::B(InstrB { rs1: a, rs2: b, imm: m }),
                        },
                        q,
                    ),
                ),
                Err(x) => Err(x),
            },
        }
    }
}

impl Instr {
    /// Reads an instruction at `p`, in a line that ends at `e`: where it
    /// ends, or the first error in it.
    pub fn parse(s: &[u8], p: usize, e: usize) -> (r: Result<(Instr, usize), AsmError>)
        requires
            p <= e <= s@.len() <= isize::MAX,
        ensures
            r == spec_instr(s@, p, e),
            r matches Ok((ins, q)) ==> p <= q <= e && ins.within(s@),
    {
        let m = scan_class(s, p, e, Class::Alpha);
        let w = scan_class(s, m, e, Class::Space);
        match Pseudo::parse(s, p, m) {
            Some(ps) => Self::parse_pseudo(s, ps, m, w, e),
            None => Self::parse_instr(s, p, m, w, e),
        }
    }

    /// Reads the operands of the pseudo-instruction `ps`, whose mnemonic
    /// ends at `m`, and expands it.
    fn parse_pseudo(s: &[u8], ps: Pseudo, m: usize, w: usize, e: usize) -> (r: Result<
        (Instr, usize),
        AsmError,
    >)
        requires
            m <= w <= e <= s@.len() <= isize::MAX,
            w == scan(s@, m as int, e as int, Class::Space),
        ensures
            r == (if w == m {
                Err(fail(s@, AsmErrorKind::InvalidPseudo, m as int, 0))
            } else {
                match spec_two_regs(s@, w, e, AsmErrorKind::InvalidPseudo) {
                    Err(x) => Err(x),
                    Ok((a, b, q)) => Ok((ps.expand(a, b), q)),
                }
            }),
            r matches Ok((ins, q)) ==> m <= q <= e && ins.within(s@),
    {
        if w == m {
            return Err(AsmError::at(s, AsmErrorKind::InvalidPseudo, m, 0));
        }
        match parse_two_regs(s, w, e, AsmErrorKind::InvalidPseudo) {
            Ok((rd, rs, q)) => Ok((ps.expand_exec(rd, rs), q)),
            Err(x) => Err(x),
        }
    }

    /// Reads a real instruction whose mnemonic is `s[p..m]`.
    fn parse_instr(s: &[u8], p: usize, m: usize, w: usize, e: usize) -> (r: Result<
        (Instr, usize),
        AsmError,
    >)
        requires
            p <= m <= w <= e <= s@.len() <= isize::MAX,
            w == scan(s@, m as int, e as int, Class::Space),
        ensures
            r == (match op_code_of(s@.subrange(p as int, m as int)) {
                Some(op) => if w == m {
                    Err(fail(s@, AsmErrorKind::InvalidInstr, m as int, 0))
                } else {
                    match spec_operands(s@, w, e, op.kind()) {
                        Err(x) => Err(x),
                        Ok((ops, q)) => Ok((Instr { op_code: op, operands: ops }, q)),
                    }
                },
                None => Err(fail(s@, AsmErrorKind::InvalidOpCode, p as int, m - p)),
            }),
            r matches Ok((ins, q)) ==> p <= q <= e && ins.within(s@),
    {
        match OpCode::parse(s, p, m) {
            Some(op_code) => {
                if w == m {
                    return Err(AsmError::at(s, AsmErrorKind::InvalidInstr, m, 0));
                }
                match op_code.kind().parse(s, w, e) {
                    Ok((operands, q)) => Ok((Instr { op_code, operands }, q)),
                    Err(x) => Err(x),
                }
            },
            None => Err(AsmError::at(s, AsmErrorKind::InvalidOpCode, p, m - p)),
        }
    }
}

/// Bits `lo..=hi` of `x`, moved down to bit 0.
pub open spec fn spec_slice(x: u32, lo: u32, hi: u32) -> u32 {
    (x >> lo) & !(0xffff_ffffu32 << ((hi - lo + 1) as u32))
}

/// Bits `start..=end` of `imm` (in either order), moved down to bit 0.
pub fn slice(imm: u32, start: u32, end: u32) -> (r: u32)
    requires
        start < 32,
        end < 32,
        start <= end ==> end - start < 31,
        end < start ==> start - end < 31,
    ensures
        r == (if start <= end {
            spec_slice(imm, start, end)
        } else {
            spec_slice(imm, end, start)
        }),
{
    let (start, end) = if start <= end {
        (start, end)
    } else {
        (end, start)
    };
    let len = end - start + 1;
    assert(1u32 << len >= 1 && ((1u32 << len) - 1) as u32 == !(0xffff_ffffu32 << len)) by (bit_vector)
        requires
            len < 32,
    ;
    (imm >> start) & ((1u32 << len) - 1)
}

/// Bit `idx` of `imm`.
pub fn bit(imm: u32, idx: u32) -> (r: u32)
    requires
        idx < 32,
    ensures
        r == spec_slice(imm, idx, idx),
{
    slice(imm, idx, idx)
}

/// R format: rs2 at bits 24:20, rs1 at 19:15, rd at 11:7.
pub open spec fn r_bits(rd: u32, rs1: u32, rs2: u32) -> u32 {
    (rs2 << 20u32) | (rs1 << 15u32) | (rd << 7u32)
}

/// I format: imm[11:0] at bits 31:20, rs at 19:15, rd at 11:7.
pub open spec fn i_bits(rd: u32, rs: u32, imm: i32) -> u32 {
    (((imm as u32) & 0xfff) << 20u32) | (rs << 15u32) | (rd << 7u32)
}

/// S format: imm[11:5] at bits 31:25, rs2 at 24:20, rs1 at 19:15,
/// imm[4:0] at 11:7.
pub open spec fn s_bits(rs1: u32, rs2: u32, imm: i32) -> u32 {
    let v = (imm as u32) & 0xfff;
    (spec_slice(v, 5, 11) << 25u32) | (rs2 << 20u32) | (rs1 << 15u32) | (spec_slice(v, 0, 4) << 7u32)
}

/// B format, for the byte displacement `disp`: imm[12] at bit 31,
/// imm[10:5] at 30:25, rs2 at 24:20, rs1 at 19:15, imm[4:1] at 11:8 and
/// imm[11] at bit 7.
pub open spec fn b_bits(rs1: u32, rs2: u32, disp: u32) -> u32 {
    let v = disp & 0x1fff;
    (spec_slice(v, 12, 12) << 31u32) | (spec_slice(v, 5, 10) << 25u32) | (rs2 << 20u32)
        | (rs1 << 15u32) | (spec_slice(v, 1, 4) << 8u32) | (spec_slice(v, 11, 11) << 7u32)
}

/// The displacement from the instruction at `addr` to `target`, as 32 bits.
pub open spec fn displacement(target: i32, addr: u32) -> u32 {
    (target as u32).wrapping_sub(addr)
}

/// The variable fields of an instruction at `addr`, given the source `s`
/// and the symbol table `syms`.
pub open spec fn spec_operands_code(
    s: Seq<u8>,
    syms: Map<Seq<u8>, i32>,
    ops: Operands,
    addr: u32,
) -> Result<u32, AsmError> {
    match ops {
        Operands::R(x) => Ok(r_bits(x.rd.0, x.rs1.0, x.rs2.0)),
        Operands::I(x) => match spec_resolve(s, syms, x.imm) {
            Ok(v) => Ok(i_bits(x.rd.0, x.rs.0, v)),
            Err(e) => Err(e),
        },
        Operands::S(x) => match spec_resolve(s, syms, x.imm) {
            Ok(v) => Ok(s_bits(x.rs1.0, x.rs2.0, v)),
            Err(e) => Err(e),
        },
        Operands::B(x) => match spec_resolve(s, syms, x.imm) {
            Ok(v) => Ok(b_bits(x.rs1.0, x.rs2.0, displacement(v, addr))),
            Err(e) => Err(e),
        },
    }
}

/// The word of an instruction at `addr`: its opcode's fixed fields and its
/// operands' fields.
pub open spec fn spec_code(s: Seq<u8>, syms: Map<Seq<u8>, i32>, ins: Instr, addr: u32) -> Result<
    u32,
    AsmError,
> {
    match spec_operands_code(s, syms, ins.operands, addr) {
        Ok(w) => Ok(ins.op_code.spec_mask() | w),
        Err(e) => Err(e),
    }
}

impl Operands {
    /// Whether the symbols among these operands lie within `s`.
    pub open spec fn within(self, s: Seq<u8>) -> bool {
        match self {
            Operands::R(_) => true,
            Operands::I(x) => x.imm.within(s),
            Operands::S(x) => x.imm.within(s),
            Operands::B(x) => x.imm.within(s),
        }
    }

    /// The variable fields of these operands, for an instruction at `addr`.
    pub fn code(&self, program: &Program, addr: u32) -> (r: Result<u32, AsmError>)
        requires
            program.wf(),
            self.within(program.src()),
        ensures
            r == spec_operands_code(program.src(), program.symbols(), *self, addr),
    {
        match self {
            Operands::R(x) => Ok(x.code()),
            Operands::I(x) => x.code(program),
            Operands::S(x) => x.code(program),
            Operands::B(x) => x.code(program, addr),
        }
    }
}

impl InstrR {
    pub fn code(&self) -> (r: u32)
        ensures
            r == r_bits(self.rd.0, self.rs1.0, self.rs2.0),
    {
        (self.rs2.idx() << 20) | (self.rs1.idx() << 15) | (self.rd.idx() << 7)
    }
}

impl InstrI {
    pub fn code(&self, program: &Program) -> (r: Result<u32, AsmError>)
        requires
            program.wf(),
            self.imm.within(program.src()),
        ensures
            r == (match spec_resolve(program.src(), program.symbols(), self.imm) {
                Ok(v) => Ok(i_bits(self.rd.0, self.rs.0, v)),
                Err(e) => Err(e),
            }),
    {
        let imm = match self.imm.resolve(program) {
            Ok(v) => (v as u32) & 0xfff,
            Err(e) => return Err(e),
        };
        Ok((imm << 20) | (self.rs.idx() << 15) | (self.rd.idx() << 7))
    }
}

impl InstrS {
    pub fn code(&self, program: &Program) -> (r: Result<u32, AsmError>)
        requires
            program.wf(),
            self.imm.within(program.src()),
        ensures
            r == (match spec_resolve(program.src(), program.symbols(), self.imm) {
                Ok(v) => Ok(s_bits(self.rs1.0, self.rs2.0, v)),
                Err(e) => Err(e),
            }),
    {
        let imm = match self.imm.resolve(program) {
            Ok(v) => (v as u32) & 0xfff,
            Err(e) => return Err(e),
        };
        Ok((slice(imm, 5, 11) << 25)
            | (self.rs2.idx() << 20)
            | (self.rs1.idx() << 15)
            | (slice(imm, 0, 4) << 7))
    }
}

impl InstrB {
    pub fn code(&self, program: &Program, addr: u32) -> (r: Result<u32, AsmError>)
        requires
            program.wf(),
            self.imm.within(program.src()),
        ensures
            r == (match spec_resolve(program.src(), program.symbols(), self.imm) {
                Ok(v) => Ok(b_bits(self.rs1.0, self.rs2.0, displacement(v, addr))),
                Err(e) => Err(e),
            }),
    {
        let target = match self.imm.resolve(program) {
            Ok(v) => v,
            Err(e) => return Err(e),
        };
        let imm = (target as u32).wrapping_sub(addr) & 0x1fff;
        Ok((bit(imm, 12) << 31)
            | (slice(imm, 5, 10) << 25)
            | (self.rs2.idx() << 20)
            | (self.rs1.idx() << 15)
            | (slice(imm, 1, 4) << 8)
            | (bit(imm, 11) << 7))
    }
}

/// The uppercase hexadecimal digit for `n` (below 16).
pub open spec fn hex_digit(n: u32) -> char {
    if n < 10 {
        ('0' as u32 + n) as char
    } else {
        ('A' as u32 + n - 10) as char
    }
}

/// The eight uppercase hexadecimal digits of `w`, most significant first.
pub open spec fn hex_word(w: u32) -> Seq<char> {
    Seq::new(8, |i: int| hex_digit((w >> ((28 - 4 * i) as u32)) & 0xf))
}

/// Relies on `String::push`: the character is appended at the end.
#[verifier::external_body]
fn push_char(s: &mut String, c: char)
    ensures
        final(s)@ == old(s)@.push(c),
{
    s.push(c)
}

fn hex_digit_char(n: u32) -> (r: char)
    requires
        n < 16,
    ensures
        r == hex_digit(n),
{
    if n < 10 {
        (('0' as u8) + (n as u8)) as char
    } else {
        (('A' as u8) + (n as u8) - 10) as char
    }
}

/// The word `w` as eight uppercase hexadecimal digits.
pub fn word_to_hex(w: u32) -> (r: String)
    ensures
        r@ == hex_word(w),
{
    let mut out = String::new();
    let mut i: u32 = 0;
    while i < 8
        invariant
            i <= 8,
            out@ == hex_word(w).subrange(0, i as int),
        decreases 8 - i,
    {
        let shift: u32 = 28 - 4 * i;
        let n = (w >> shift) & 0xf;
        assert(n < 16) by (bit_vector)
            requires
                n == (w >> shift) & 0xf,
        ;
        push_char(&mut out, hex_digit_char(n));
        assert(out@ =~= hex_word(w).subrange(0, i + 1));
        i += 1;
    }
    assert(out@ =~= hex_word(w));
    out
}

impl Instr {
    /// Whether the symbols that this instruction names lie within `s`.
    pub open spec fn within(self, s: Seq<u8>) -> bool {
        self.operands.within(s)
    }

    /// The word of this instruction at `addr` in `program`.
    pub fn code(&self, program: &Program, addr: u32) -> (r: Result<u32, AsmError>)
        requires
            program.wf(),
            self.within(program.src()),
        ensures
            r == spec_code(program.src(), program.symbols(), *self, addr),
    {
        let op_code = self.op_code.mask();
        match self.operands.code(program, addr) {
            Ok(operands) => Ok(op_code | operands),
            Err(e) => Err(e),
        }
    }

    /// The word of this instruction at `addr`, as eight uppercase
    /// hexadecimal digits.
    pub fn to_hex_str(&self, program: &Program, addr: u32) -> (r: Result<String, AsmError>)
        requires
            program.wf(),
            self.within(program.src()),
        ensures
            match spec_code(program.src(), program.symbols(), *self, addr) {
                Ok(w) => r matches Ok(text) && text@ == hex_word(w),
                Err(e) => r matches Err(x) && x == e,
            },
    {
        match self.code(program, addr) {
            Ok(w) => Ok(word_to_hex(w)),
            Err(e) => Err(e),
        }
    }
}

/// The 13-bit branch immediate that a B-format word holds.
pub open spec fn b_imm13(w: u32) -> u32 {
    (((w >> 31u32) & 1) << 12u32) | (((w >> 25u32) & 0x3f) << 5u32) | (((w >> 8u32) & 0xf) << 1u32)
        | (((w >> 7u32) & 1) << 11u32)
}

/// The signed byte displacement that a B-format word holds.
pub open spec fn b_offset(w: u32) -> int {
    let u = b_imm13(w);
    if u >= 4096 {
        u - 8192
    } else {
        u as int
    }
}

/// Operands that are all zero, in the shape of `kind`.
pub open spec fn zero_operands(kind: OpKind) -> Operands {
    match kind {
        OpKind::R => Operands::R(InstrR { rd: Reg(0), rs1: Reg(0), rs2: Reg(0) }),
        OpKind::I => Operands::I(InstrI { rd: Reg(0), rs: Reg(0), imm: Imm::Val(0) }),
        OpKind::S => Operands::S(InstrS { rs1: Reg(0), rs2: Reg(0), imm: Imm::Val(0) }),
        OpKind::B => Operands::B(InstrB { rs1: Reg(0), rs2: Reg(0), imm: Imm::Val(0) }),
    }
}

/// With all operands zero, an instruction's word holds its opcode's fixed
/// fields and nothing else.
pub proof fn lemma_zero_operands_code(s: Seq<u8>, syms: Map<Seq<u8>, i32>, op: OpCode, addr: u32)
    requires
        op.spec_kind() == OpKind::B ==> addr == 0,
    ensures
        spec_code(s, syms, Instr { op_code: op, operands: zero_operands(op.spec_kind()) }, addr)
            == Ok::<u32, AsmError>(op.spec_mask()),
{
    let m = op.spec_mask();
    assert(r_bits(0, 0, 0) == 0) by (bit_vector);
    assert(i_bits(0, 0, 0) == 0) by (bit_vector);
    assert(s_bits(0, 0, 0) == 0) by (bit_vector);
    assert(b_bits(0, 0, 0) == 0) by (bit_vector);
    assert(m | 0 == m) by (bit_vector);
}

/// The displacement field of a B-format word reads back as the
/// displacement it was built from, to 13 bits with bit 0 dropped.
pub proof fn lemma_b_imm_round_trip(rs1: u32, rs2: u32, v: u32)
    requires
        rs1 < 32,
        rs2 < 32,
    ensures
        b_imm13(b_bits(rs1, rs2, v)) == v & 0x1ffe,
{
    assert(b_imm13(b_bits(rs1, rs2, v)) == v & 0x1ffe) by (bit_vector)
        requires
            rs1 < 32,
            rs2 < 32,
    ;
}

/// A branch at address `4 * (n + m)` to the address `4 * n` encodes the
/// displacement `-4 * m`.
pub proof fn lemma_branch_back(rs1: Reg, rs2: Reg, n: u32, m: u32)
    requires
        rs1.0 < 32,
        rs2.0 < 32,
        n + m < 0x2000_0000,
        m <= 1024,
    ensures
        b_offset(b_bits(rs1.0, rs2.0, displacement((4 * n) as i32, (4 * (n + m)) as u32))) == -4 * m,
{
    let t = (4 * n) as i32;
    let a = (4 * (n + m)) as u32;
    assert(t as u32 == 4 * n);
    let v = displacement(t, a);
    lemma_b_imm_round_trip(rs1.0, rs2.0, v);
    assert(v & 0x1ffe == (v % 8192) / 2 * 2) by (bit_vector);
    if m == 0 {
        assert(v == 0);
    } else {
        assert(v == 0x1_0000_0000 - 4 * m);
        assert((0x1_0000_0000 - 4 * m) % 8192 == 8192 - 4 * m) by (nonlinear_arith)
            requires
                0 < m <= 1024,
        ;
    }
}

} // verus!
