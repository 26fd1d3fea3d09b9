use riscv_asm::error::{AsmError, AsmErrorKind};
use riscv_asm::imm::Imm;
use riscv_asm::instr::{bit, slice, word_to_hex, Instr, InstrR, Operands};
use riscv_asm::op_code::{OpCode, OpKind};
use riscv_asm::program::Program;
use riscv_asm::pseudo::Pseudo;
use riscv_asm::reg::Reg;
use riscv_asm::span::Offset;

fn assemble(src: &str) -> Result<Vec<u32>, AsmError> {
    Program::parse(src)?.generate()
}

fn parse_err(src: &str) -> AsmError {
    Program::parse(src).unwrap_err()
}

/// The signed displacement held by a B-format word.
fn b_offset(w: u32) -> i32 {
    let u = (((w >> 31) & 1) << 12) | (((w >> 25) & 0x3f) << 5) | (((w >> 8) & 0xf) << 1) | (((w >> 7) & 1) << 11);
    if u >= 4096 {
        u as i32 - 8192
    } else {
        u as i32
    }
}

fn reg(name: &str) -> Option<u32> {
    Reg::lookup(name.as_bytes(), 0, name.len())
}

const ALL_OPS: [(&str, OpCode); 20] = [
    ("add", OpCode::add),
    ("sub", OpCode::sub),
    ("xor", OpCode::xor),
    ("or", OpCode::or),
    ("and", OpCode::and),
    ("sll", OpCode::sll),
    ("srl", OpCode::srl),
    ("sra", OpCode::sra),
    ("slt", OpCode::slt),
    ("sltu", OpCode::sltu),
    ("addi", OpCode::addi),
    ("xori", OpCode::xori),
    ("ori", OpCode::ori),
    ("andi", OpCode::andi),
    ("slli", OpCode::slli),
    ("srli", OpCode::srli),
    ("srai", OpCode::srai),
    ("slti", OpCode::slti),
    ("sltiu", OpCode::sltiu),
    ("beq", OpCode::beq),
];

#[test]
fn scenario_counter_loop() {
    let src = "start:      addi a0, zero, 0\ncounter:    addi a0, a0, 1\n            beq zero, zero, counter\n";
    let words = assemble(src).unwrap();
    assert_eq!(words, vec![0x0000_0513, 0x0015_0513, 0xfe00_0ee3]);
    assert_eq!(b_offset(words[2]), -4);
}

#[test]
fn scenario_undefined_label() {
    let src = "beq zero, zero, nowhere";
    let program = Program::parse(src).unwrap();
    let err = program.generate().unwrap_err();
    assert_eq!(err.kind, AsmErrorKind::UnknownSym);
    assert_eq!(err.span.offset, 16);
    assert_eq!(err.span.len, 7);
    assert_eq!(err.span.line, 1);
    assert_eq!(err.span.col, 17);
    assert_eq!(&src[err.span.offset..err.span.offset + err.span.len], "nowhere");
}

#[test]
fn scenario_unknown_mnemonic() {
    let err = parse_err("mov a0, zero");
    assert_eq!(err.kind, AsmErrorKind::InvalidOpCode);
    assert_eq!(err.span.offset, 0);
    assert_eq!(err.span.len, 3);
    assert_eq!(err.span.col, 1);
}

#[test]
fn pseudo_mv_expands_to_addi() {
    let src = "\nstart:      mv a0, zero\ncounter:    addi a0, a0, 1\n            beq zero, zero, counter\n    ";
    assert_eq!(assemble(src).unwrap(), vec![0x0000_0513, 0x0015_0513, 0xfe00_0ee3]);
    assert_eq!(Pseudo::mv.op_code(), OpCode::addi);
}

#[test]
fn registers_resolve_to_documented_indices() {
    let names = [
        "zero", "ra", "sp", "gp", "tp", "t0", "t1", "t2", "s0", "s1", "a0", "a1", "a2", "a3", "a4", "a5", "a6", "a7",
        "s2", "s3", "s4", "s5", "s6", "s7", "s8", "s9", "s10", "s11", "t3", "t4", "t5", "t6",
    ];
    for (idx, name) in names.iter().enumerate() {
        assert_eq!(reg(name), Some(idx as u32), "{}", name);
    }
    assert_eq!(reg("fp"), Some(8));
    assert_eq!(reg("fp"), reg("s0"));
}

#[test]
fn unknown_register_names_are_rejected() {
    assert_eq!(reg("x0"), None);
    assert_eq!(reg("Zero"), None);
    assert_eq!(reg("s12"), None);
    assert_eq!(reg("t7"), None);
    assert_eq!(reg(""), None);
}

#[test]
fn register_index_and_r_code() {
    assert_eq!(Reg(17).idx(), 17);
    let r = InstrR { rd: Reg(1), rs1: Reg(2), rs2: Reg(3) };
    assert_eq!(r.code(), (3 << 20) | (2 << 15) | (1 << 7));
}

#[test]
fn zero_operands_give_fixed_bits() {
    for (name, op) in ALL_OPS.iter() {
        let line = match op.kind() {
            OpKind::R => format!("{} zero, zero, zero", name),
            _ => format!("{} zero, zero, 0", name),
        };
        assert_eq!(assemble(&line).unwrap(), vec![op.mask()], "{}", name);
    }
    assert_eq!(OpCode::add.mask(), 0x0000_0033);
    assert_eq!(OpCode::sub.mask(), 0x4000_0033);
    assert_eq!(OpCode::sra.mask(), 0x4000_5033);
    assert_eq!(OpCode::sltiu.mask(), 0x0000_3013);
    assert_eq!(OpCode::beq.mask(), 0x0000_0063);
}

#[test]
fn fixed_fields_identify_the_opcode() {
    for (name_a, a) in ALL_OPS.iter() {
        for (name_b, b) in ALL_OPS.iter() {
            let same = a.fixed_bits() == b.fixed_bits();
            let shifts = ["slli", "srli", "srai"];
            if shifts.contains(name_a) && shifts.contains(name_b) {
                assert!(same);
            } else {
                assert_eq!(same, name_a == name_b, "{} {}", name_a, name_b);
            }
        }
        let w = a.mask();
        assert_eq!((w & 0x7f, (w >> 12) & 0x7, (w >> 25) & 0x7f), a.fixed_bits());
    }
}

#[test]
fn label_address_and_branch_back() {
    for n in 0..4usize {
        for m in 0..4usize {
            let mut src = String::new();
            for _ in 0..n {
                src.push_str("addi a0, a0, 1\n");
            }
            src.push_str("here:\n");
            for _ in 0..m {
                src.push_str("addi a1, a1, 1\n");
            }
            src.push_str("beq a0, a1, here\n");
            let program = Program::parse(&src).unwrap();
            let label = src.find("here").unwrap();
            assert_eq!(program.resolve(&Offset { offset: label, len: 4 }).unwrap(), 4 * n as i32);
            let words = program.generate().unwrap();
            assert_eq!(words.len(), n + m + 1);
            assert_eq!(b_offset(words[n + m]), -4 * m as i32);
        }
    }
}

#[test]
fn forward_branch() {
    let words = assemble("beq a0, a1, done\naddi a0, a0, 1\ndone: addi a1, a1, 1").unwrap();
    assert_eq!(b_offset(words[0]), 8);
    assert_eq!(words[0], 0x00b5_0463);
}

#[test]
fn parsing_twice_gives_the_same_words() {
    let src = "loop: addi t0, t0, 1\n  sub t1, t0, a0\n  beq t1, zero, loop\n";
    let first = assemble(src).unwrap();
    let second = assemble(src).unwrap();
    assert_eq!(first, second);
    assert_eq!(first.len(), 3);
}

#[test]
fn literal_forms() {
    let imm = |text: &str| assemble(&format!("addi a0, zero, {}", text)).map(|w| w[0] >> 20);
    assert_eq!(imm("0").unwrap(), 0);
    assert_eq!(imm("07").unwrap(), 7);
    assert_eq!(imm("010").unwrap(), 8);
    assert_eq!(imm("8").unwrap(), 8);
    assert_eq!(imm("123").unwrap(), 123);
    assert_eq!(imm("0x7f").unwrap(), 0x7f);
    assert_eq!(imm("0xFFF").unwrap(), 0xfff);
    assert_eq!(imm("0b101").unwrap(), 5);
    assert_eq!(imm("4095").unwrap(), 0xfff);
    assert_eq!(imm("4096").unwrap(), 0);
}

#[test]
fn octal_zero_then_eight_is_rejected() {
    let err = parse_err("addi a0, zero, 08");
    assert_eq!(err.kind, AsmErrorKind::Syntax);
    assert_eq!(err.span.offset, 16);
}

#[test]
fn invalid_immediates() {
    let kind = |text: &str| parse_err(&format!("addi a0, zero, {}", text)).kind;
    assert_eq!(kind("0x"), AsmErrorKind::InvalidImm);
    assert_eq!(kind("0b"), AsmErrorKind::InvalidImm);
    assert_eq!(kind("0b12"), AsmErrorKind::InvalidImm);
    assert_eq!(kind("2147483648"), AsmErrorKind::InvalidImm);
    assert_eq!(kind("0x80000000"), AsmErrorKind::InvalidImm);
    assert_eq!(kind("-1"), AsmErrorKind::InvalidImm);
    assert!(assemble("addi a0, zero, 2147483647").is_ok());
    assert!(assemble("addi a0, zero, 0x7fffffff").is_ok());
}

#[test]
fn error_kinds() {
    assert_eq!(parse_err("addi a0, a0").kind, AsmErrorKind::InvalidInstr);
    assert_eq!(parse_err("add a0 a1, a2").kind, AsmErrorKind::InvalidInstr);
    assert_eq!(parse_err("add").kind, AsmErrorKind::InvalidInstr);
    assert_eq!(parse_err("add a0, a1, x9").kind, AsmErrorKind::InvalidReg);
    assert_eq!(parse_err("mv a0 a1").kind, AsmErrorKind::InvalidPseudo);
    assert_eq!(parse_err("mv a0, a1, a2").kind, AsmErrorKind::Syntax);
    assert_eq!(parse_err("addi a0, a0, 1 extra").kind, AsmErrorKind::Syntax);
    assert_eq!(parse_err("addi a0, a0, 1#c").kind, AsmErrorKind::Syntax);
    assert_eq!(parse_err("loop:addi a0, a0, 1").kind, AsmErrorKind::Syntax);
    assert_eq!(parse_err("# only a comment").kind, AsmErrorKind::InvalidOpCode);
}

#[test]
fn error_position_on_later_line() {
    let src = "addi a0, a0, 1\n\n  add a0, a1, q9\n";
    let err = parse_err(src);
    assert_eq!(err.kind, AsmErrorKind::InvalidReg);
    assert_eq!(err.span.offset, 30);
    assert_eq!(err.span.len, 2);
    assert_eq!(err.span.line, 3);
    assert_eq!(err.span.col, 15);
    assert_eq!(err.line_bounds(src.as_bytes()), (16, 32));
    assert_eq!(err.with_kind(AsmErrorKind::Syntax).kind, AsmErrorKind::Syntax);
}

#[test]
fn comments_blanks_and_labels() {
    let src = "\n\n   \n# \nstart: # entry\n  addi a0, a0, 1   # bump\nend:\n\t\n";
    assert_eq!(parse_err(src).span.line, 4);
    let src = "\n\n   \nstart: # entry\n  addi a0, a0, 1   # bump\nend:   \n\t\n";
    let program = Program::parse(src).unwrap();
    assert_eq!(program.generate().unwrap(), vec![0x0015_0513]);
    let end = src.find("end").unwrap();
    assert_eq!(program.resolve(&Offset { offset: end, len: 3 }).unwrap(), 4);
    let start = src.find("start").unwrap();
    assert_eq!(program.resolve(&Offset { offset: start, len: 5 }).unwrap(), 0);
}

#[test]
fn relabelling_keeps_the_last_binding() {
    let src = "x: addi a0, a0, 1\nx: addi a0, zero, x\n";
    let words = assemble(src).unwrap();
    assert_eq!(words[1] >> 20, 4);
}

#[test]
fn empty_source_has_no_words() {
    assert_eq!(assemble("").unwrap(), Vec::<u32>::new());
    assert_eq!(assemble("\n\n  \n").unwrap(), Vec::<u32>::new());
}

#[test]
fn store_layout_splits_the_immediate() {
    let program = Program::parse("").unwrap();
    let ops = Operands::S(riscv_asm::instr::InstrS { rs1: Reg(2), rs2: Reg(5), imm: Imm::Val(0x7ff) });
    let ins = Instr { op_code: OpCode::beq, operands: ops };
    let w = ins.code(&program, 0).unwrap();
    assert_eq!(w, 0x63 | (0x3f << 25) | (5 << 20) | (2 << 15) | (0x1f << 7));
}

#[test]
fn immediate_resolution() {
    let src = "lbl: addi a0, a0, lbl";
    let program = Program::parse(src).unwrap();
    assert_eq!(Imm::Val(-5).resolve(&program).unwrap(), -5);
    assert_eq!(Imm::Sym(Offset { offset: 0, len: 3 }).resolve(&program).unwrap(), 0);
    let err = Imm::Sym(Offset { offset: 5, len: 4 }).resolve(&program).unwrap_err();
    assert_eq!(err.kind, AsmErrorKind::UnknownSym);
}

#[test]
fn slices_of_words() {
    assert_eq!(slice(0b1011_0110, 1, 4), 0b1011);
    assert_eq!(slice(0b1011_0110, 4, 1), 0b1011);
    assert_eq!(slice(0xdead_beef, 16, 31), 0xdead);
    assert_eq!(slice(0xffff_ffff, 0, 30), 0x7fff_ffff);
    assert_eq!(bit(0x1000, 12), 1);
    assert_eq!(bit(0x1000, 11), 0);
}

#[test]
fn large_immediate_is_masked() {
    let words = assemble("addi a0, zero, 0x12345").unwrap();
    assert_eq!(words[0], (0x345 << 20) | (10 << 7) | 0x13);
}

#[test]
fn words_as_hex_text() {
    assert_eq!(word_to_hex(0xfe00_0ee3), "FE000EE3");
    assert_eq!(word_to_hex(0), "00000000");
    assert_eq!(word_to_hex(0x0015_0513), "00150513");
    let program = Program::parse("").unwrap();
    let ins = Instr {
        op_code: OpCode::addi,
        operands: Operands::I(riscv_asm::instr::InstrI { rd: Reg(10), rs: Reg(10), imm: Imm::Val(1) }),
    };
    assert_eq!(ins.to_hex_str(&program, 0).unwrap(), "00150513");
}
