use vstd::prelude::*;

use crate::error::{fail, AsmError, AsmErrorKind};
use crate::program::Program;
use crate::span::{is_digit, is_ident_start, lemma_scan_bounds, scan, scan_class, Class, Offset};

verus! {

/// An immediate operand: a number, or a symbol that names a label, kept
/// as its place in the source until the program is generated.
#[derive(Debug, Clone, Copy)]
pub enum Imm {
    Val(i32),
    Sym(Offset),
}

/// The value of a hexadecimal digit (zero for other bytes).
pub open spec fn digit_value(b: u8) -> int {
    if is_digit(b) {
        b - '0' as u8
    } else if 'a' as u8 <= b <= 'f' as u8 {
        b - 'a' as u8 + 10
    } else if 'A' as u8 <= b <= 'F' as u8 {
        b - 'A' as u8 + 10
    } else {
        0
    }
}

/// The number that the digits `s[i..j]` write in base `radix`.
pub open spec fn digits_value(s: Seq<u8>, i: int, j: int, radix: int) -> int
    decreases j - i,
{
    if j <= i {
        0
    } else {
        digits_value(s, i, j - 1, radix) * radix + digit_value(s[j - 1])
    }
}

/// Where the identifier that starts at `p` ends, if one starts there.
pub open spec fn spec_sym_end(s: Seq<u8>, p: usize, e: usize) -> Option<usize> {
    if p < e && is_ident_start(s[p as int]) {
        Some(scan(s, p as int, e as int, Class::Word) as usize)
    } else {
        None
    }
}

/// The literal whose digits are `s[i..q]` in base `radix`, written from
/// `p` on: its value if that fits an `i32`.
pub open spec fn spec_number(s: Seq<u8>, p: usize, i: usize, q: usize, radix: int) -> Result<
    (Imm, usize),
    AsmError,
> {
    let v = digits_value(s, i as int, q as int, radix);
    if v <= i32::MAX {
        Ok((Imm::Val(v as i32), q))
    } else {
        Err(fail(s, AsmErrorKind::InvalidImm, p as int, q - p))
    }
}

/// A numeric literal at `p`: decimal `[1-9][0-9]*`, hexadecimal `0x` and
/// hex digits, binary `0b` and binary digits, or octal `0[0-7]*`.
pub open spec fn spec_literal(s: Seq<u8>, p: usize, e: usize) -> Result<(Imm, usize), AsmError> {
    let prefixed = p + 1 < e && s[p as int] == '0' as u8;
    if p < e && '1' as u8 <= s[p as int] <= '9' as u8 {
        spec_number(s, p, p, scan(s, p as int, e as int, Class::Digit) as usize, 10)
    } else if prefixed && s[p + 1] == 'x' as u8 {
        let q = scan(s, p + 2, e as int, Class::Hex);
        if q == p + 2 {
            Err(fail(s, AsmErrorKind::InvalidImm, p as int, 2))
        } else {
            spec_number(s, p, (p + 2) as usize, q as usize, 16)
        }
    } else if prefixed && s[p + 1] == 'b' as u8 {
        let q = scan(s, p + 2, e as int, Class::Oct);
        if q == p + 2 || scan(s, p + 2, q, Class::Bin) != q {
            Err(fail(s, AsmErrorKind::InvalidImm, p as int, q - p))
        } else {
            spec_number(s, p, (p + 2) as usize, q as usize, 2)
        }
    } else if p < e && s[p as int] == '0' as u8 {
        spec_number(s, p, p, scan(s, p + 1, e as int, Class::Oct) as usize, 8)
    } else {
        Err(fail(s, AsmErrorKind::InvalidImm, p as int, 0))
    }
}

/// An immediate operand at `p`: a symbol when it starts as an identifier
/// does, a numeric literal otherwise.
pub open spec fn spec_imm(s: Seq<u8>, p: usize, e: usize) -> Result<(Imm, usize), AsmError> {
    match spec_sym_end(s, p, e) {
        Some(q) => Ok((Imm::Sym(Offset { offset: p, len: (q - p) as usize }), q)),
        None => spec_literal(s, p, e),
    }
}

proof fn lemma_digits_nonneg(s: Seq<u8>, i: int, j: int, radix: int)
    requires
        radix >= 1,
    ensures
        digits_value(s, i, j, radix) >= 0,
    decreases j - i,
{
    if j > i {
        lemma_digits_nonneg(s, i, j - 1, radix);
        let v = digits_value(s, i, j - 1, radix);
        assert(v * radix >= 0) by (nonlinear_arith)
            requires
                v >= 0,
                radix >= 1,
        ;
    }
}

proof fn lemma_digits_grow(s: Seq<u8>, i: int, k: int, j: int, radix: int)
    requires
        i <= k <= j,
        radix >= 1,
    ensures
        digits_value(s, i, k, radix) <= digits_value(s, i, j, radix),
    decreases j - k,
{
    if k < j {
        lemma_digits_grow(s, i, k, j - 1, radix);
        lemma_digits_nonneg(s, i, j - 1, radix);
        let v = digits_value(s, i, j - 1, radix);
        assert(v * radix >= v) by (nonlinear_arith)
            requires
                v >= 0,
                radix >= 1,
        ;
    }
}

/// Where the identifier that starts at `p` ends, if one starts there.
pub fn parse_sym(s: &[u8], p: usize, e: usize) -> (r: Option<usize>)
    requires
        p <= e <= s@.len(),
    ensures
        r == spec_sym_end(s@, p, e),
        r matches Some(q) ==> p < q <= e,
{
    if p < e && (class_has_ident_start(s[p])) {
        proof {
            lemma_scan_bounds(s@, p + 1, e as int, Class::Word);
        }
        Some(scan_class(s, p, e, Class::Word))
    } else {
        None
    }
}

fn class_has_ident_start(b: u8) -> (r: bool)
    ensures
        r == is_ident_start(b),
{
    ('a' as u8 <= b && b <= 'z' as u8) || ('A' as u8 <= b && b <= 'Z' as u8) || b == '_' as u8
}

fn digit(b: u8) -> (r: u64)
    ensures
        r == digit_value(b),
        r < 16,
{
    if '0' as u8 <= b && b <= '9' as u8 {
        (b - '0' as u8) as u64
    } else if 'a' as u8 <= b && b <= 'f' as u8 {
        (b - 'a' as u8 + 10) as u64
    } else if 'A' as u8 <= b && b <= 'F' as u8 {
        (b - 'A' as u8 + 10) as u64
    } else {
        0
    }
}

/// Reads the digits `s[i..q]` in base `radix` as the literal that starts at `p`.
fn number(s: &[u8], p: usize, i: usize, q: usize, radix: u64) -> (r: Result<(Imm, usize), AsmError>)
    requires
        p <= i <= q <= s@.len() <= isize::MAX,
        2 <= radix <= 16,
    ensures
        r == spec_number(s@, p, i, q, radix as int),
{
    let mut v: u64 = 0;
    let mut k: usize = i;
    while k < q
        invariant
            p <= i <= k <= q <= s@.len() <= isize::MAX,
            2 <= radix <= 16,
            v == digits_value(s@, i as int, k as int, radix as int),
            v <= i32::MAX,
        decreases q - k,
    {
        assert(v * radix <= 0x7fffffff * 16) by (nonlinear_arith)
            requires
                v <= 0x7fffffff,
                radix <= 16,
        ;
        let next = v * radix + digit(s[k]);
        if next > i32::MAX as u64 {
            proof {
                lemma_digits_grow(s@, i as int, k + 1, q as int, radix as int);
            }
            return Err(AsmError::at(s, AsmErrorKind::InvalidImm, p, q - p));
        }
        v = next;
        k += 1;
    }
    Ok((Imm::Val(v as i32), q))
}

impl Imm {
    /// Reads an immediate operand at `p`, in a line that ends at `e`.
    pub fn parse(s: &[u8], p: usize, e: usize) -> (r: Result<(Imm, usize), AsmError>)
        requires
            p <= e <= s@.len() <= isize::MAX,
        ensures
            r == spec_imm(s@, p, e),
            r matches Ok((m, q)) ==> p <= q <= e && m.within(s@),
    {
        match Self::parse_sym(s, p, e) {
            Some(r) => Ok(r),
            None => Self::parse_imm(s, p, e),
        }
    }

    /// Reads a symbol at `p`, if an identifier starts there.
    pub fn parse_sym(s: &[u8], p: usize, e: usize) -> (r: Option<(Imm, usize)>)
        requires
            p <= e <= s@.len(),
        ensures
            r == (match spec_sym_end(s@, p, e) {
                Some(q) => Some((Imm::Sym(Offset { offset: p, len: (q - p) as usize }), q)),
                None => None,
            }),
            r matches Some((_, q)) ==> p <= q <= e,
    {
        match parse_sym(s, p, e) {
            Some(q) => Some((Imm::Sym(Offset { offset: p, len: q - p }), q)),
            None => None,
        }
    }

    /// Reads a numeric literal at `p`.
    pub fn parse_imm(s: &[u8], p: usize, e: usize) -> (r: Result<(Imm, usize), AsmError>)
        requires
            p <= e <= s@.len() <= isize::MAX,
        ensures
            r == spec_literal(s@, p, e),
            r matches Ok((_, q)) ==> p <= q <= e,
    {
        let prefixed = p + 1 < e && s[p] == '0' as u8;
        if p < e && '1' as u8 <= s[p] && s[p] <= '9' as u8 {
            let q = scan_class(s, p, e, Class::Digit);
            number(s, p, p, q, 10)
        } else if prefixed && s[p + 1] == 'x' as u8 {
            let q = scan_class(s, p + 2, e, Class::Hex);
            if q == p + 2 {
                Err(AsmError::at(s, AsmErrorKind::InvalidImm, p, 2))
            } else {
                number(s, p, p + 2, q, 16)
            }
        } else if prefixed && s[p + 1] == 'b' as u8 {
            let q = scan_class(s, p + 2, e, Class::Oct);
            if q == p + 2 || scan_class(s, p + 2, q, Class::Bin) != q {
                Err(AsmError::at(s, AsmErrorKind::InvalidImm, p, q - p))
            } else {
                number(s, p, p + 2, q, 2)
            }
        } else if p < e && s[p] == '0' as u8 {
            let q = scan_class(s, p + 1, e, Class::Oct);
            number(s, p, p, q, 8)
        } else {
            Err(AsmError::at(s, AsmErrorKind::InvalidImm, p, 0))
        }
    }
}

/// The value of an immediate, given the source `s` and the symbol table
/// `syms`: a number stands for itself, a symbol for the address that the
/// table binds its name to.
pub open spec fn spec_resolve(s: Seq<u8>, syms: Map<Seq<u8>, i32>, imm: Imm) -> Result<i32, AsmError> {
    match imm {
        Imm::Val(v) => Ok(v),
        Imm::Sym(o) => if syms.contains_key(o.of(s)) {
            Ok(syms[o.of(s)])
        } else {
            Err(fail(s, AsmErrorKind::UnknownSym, o.offset as int, o.len as int))
        },
    }
}

impl Imm {
    /// Whether a symbol lies within `s`.
    pub open spec fn within(self, s: Seq<u8>) -> bool {
        match self {
            Imm::Val(_) => true,
            Imm::Sym(o) => o.within(s),
        }
    }

    /// The value of this immediate in `program`.
    pub fn resolve(&self, program: &Program) -> (r: Result<i32, AsmError>)
        requires
            program.wf(),
            self.within(program.src()),
        ensures
            r == spec_resolve(program.src(), program.symbols(), *self),
    {
        match self {
            Imm::Val(val) => Ok(*val),
            Imm::Sym(sym) => program.resolve(sym),
        }
    }
}

} // verus!
