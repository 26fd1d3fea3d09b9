use vstd::prelude::*;
use vstd::string::StringSliceAdditionalSpecFns;

use crate::error::{fail, AsmError, AsmErrorKind};
use crate::imm::{parse_sym, spec_sym_end};
use crate::instr::{lemma_zero_operands_code, spec_code, spec_instr, zero_operands, Instr};
use crate::op_code::OpCode;
use crate::span::{lemma_scan_bounds, ranges_eq, scan, scan_class, Class, Offset};

verus! {

/// A parsed program: its instructions, in order, and its labels. The
/// instruction at position `k` has the address `4 * k`. A label declared
/// twice is bound to the address of its last declaration.
#[derive(Debug)]
pub struct Program<'s> {
    input: &'s str,
    code: Vec<Instr>,
    sym: Vec<(Offset, i32)>,
}

/// The address of the instruction at position `n`.
pub open spec fn spec_addr(n: int) -> u32 {
    (n as u32) << 2u32
}

/// The symbol table that a list of label bindings makes, where a later
/// binding of a name replaces an earlier one.
pub open spec fn sym_map(s: Seq<u8>, entries: Seq<(Offset, i32)>) -> Map<Seq<u8>, i32>
    decreases entries.len(),
{
    if entries.len() == 0 {
        Map::empty()
    } else {
        sym_map(s, entries.drop_last()).insert(entries.last().0.of(s), entries.last().1)
    }
}

/// What one line of source holds.
#[derive(Debug, Clone, Copy)]
pub enum Line {
    Blank,
    Instr(Instr),
    Label(Offset, Option<Instr>),
}

impl Line {
    /// Whether the symbols and labels of this line lie within `s`.
    pub open spec fn within(self, s: Seq<u8>) -> bool {
        match self {
            Line::Blank => true,
            Line::Instr(ins) => ins.within(s),
            Line::Label(name, ins) => name.within(s) && (ins matches Some(i) ==> i.within(s)),
        }
    }
}

/// What may follow the last construct of a line at `q`: blanks, then the
/// end of the line or, after at least one blank, a `#` comment.
pub open spec fn spec_tail(s: Seq<u8>, q: usize, e: usize) -> Result<(), AsmError> {
    let w = scan(s, q as int, e as int, Class::Space);
    if w == e || (w > q && s[w] == '#' as u8) {
        Ok(())
    } else {
        Err(fail(s, AsmErrorKind::Syntax, w, e - w))
    }
}

/// Where a label that starts at `p` ends (at its `:`), if one does.
pub open spec fn spec_label_end(s: Seq<u8>, p: usize, e: usize) -> Option<usize> {
    match spec_sym_end(s, p, e) {
        Some(q) => if q < e && s[q as int] == ':' as u8 {
            Some(q)
        } else {
            None
        },
        None => None,
    }
}

/// An instruction at `p`, then the end of the line.
pub open spec fn spec_instr_line(s: Seq<u8>, p: usize, e: usize) -> Result<Instr, AsmError> {
    match spec_instr(s, p, e) {
        Err(x) => Err(x),
        Ok((ins, q)) => match spec_tail(s, q, e) {
            Err(x) => Err(x),
            Ok(_) => Ok(ins),
        },
    }
}

/// The line `s[p..e]`: blank; a label, optionally followed by blanks and an
/// instruction; or an instruction. A `#` comment may end the line.
pub open spec fn spec_line(s: Seq<u8>, p: usize, e: usize) -> Result<Line, AsmError> {
    let b = scan(s, p as int, e as int, Class::Space) as usize;
    if b == e {
        Ok(Line::Blank)
    } else {
        match spec_label_end(s, b, e) {
            Some(q) => {
                let label = Offset { offset: b, len: (q - b) as usize };
                let a = q + 1;
                let w = scan(s, a, e as int, Class::Space);
                if a < w < e && s[w] != '#' as u8 {
                    match spec_instr_line(s, w as usize, e) {
                        Err(x) => Err(x),
                        Ok(ins) => Ok(Line::Label(label, Some(ins))),
                    }
                } else {
                    match spec_tail(s, a as usize, e) {
                        Err(x) => Err(x),
                        Ok(_) => Ok(Line::Label(label, None)),
                    }
                }
            },
            None => match spec_instr_line(s, b, e) {
                Err(x) => Err(x),
                Ok(ins) => Ok(Line::Instr(ins)),
            },
        }
    }
}

/// The instructions and label bindings after one more line: a label is
/// bound to the address of the next instruction, before an instruction on
/// its own line is added.
pub open spec fn apply_line(st: (Seq<Instr>, Seq<(Offset, i32)>), line: Line) -> (
    Seq<Instr>,
    Seq<(Offset, i32)>,
) {
    match line {
        Line::Blank => st,
        Line::Instr(ins) => (st.0.push(ins), st.1),
        Line::Label(name, ins) => {
            let sym = st.1.push((name, spec_addr(st.0.len() as int) as i32));
            match ins {
                Some(ins) => (st.0.push(ins), sym),
                None => (st.0, sym),
            }
        },
    }
}

/// The lines of `s` from `p` on, applied to `st`; the first error, if any.
pub open spec fn spec_parse_from(s: Seq<u8>, p: int, st: (Seq<Instr>, Seq<(Offset, i32)>)) -> Result<
    (Seq<Instr>, Seq<(Offset, i32)>),
    AsmError,
>
    decreases s.len() + 1 - p,
    via parse_from_decreases
{
    if p < 0 || p >= s.len() {
        Ok(st)
    } else {
        let e = scan(s, p, s.len() as int, Class::Line);
        match spec_line(s, p as usize, e as usize) {
            Err(x) => Err(x),
            Ok(line) => spec_parse_from(s, e + 1, apply_line(st, line)),
        }
    }
}

#[via_fn]
proof fn parse_from_decreases(s: Seq<u8>, p: int, st: (Seq<Instr>, Seq<(Offset, i32)>)) {
    if !(p < 0 || p >= s.len()) {
        lemma_scan_bounds(s, p, s.len() as int, Class::Line);
    }
}

/// The instructions and label bindings of the source `s`, or the first
/// error in it.
pub open spec fn spec_parse(s: Seq<u8>) -> Result<(Seq<Instr>, Seq<(Offset, i32)>), AsmError> {
    spec_parse_from(s, 0, (Seq::empty(), Seq::empty()))
}

/// The words of the first `n` instructions of `code`, or the first error.
pub open spec fn spec_generate_upto(
    s: Seq<u8>,
    syms: Map<Seq<u8>, i32>,
    code: Seq<Instr>,
    n: int,
) -> Result<Seq<u32>, AsmError>
    decreases n,
{
    if n <= 0 {
        Ok(Seq::empty())
    } else {
        match spec_generate_upto(s, syms, code, n - 1) {
            Err(x) => Err(x),
            Ok(ws) => match spec_code(s, syms, code[n - 1], spec_addr(n - 1)) {
                Err(x) => Err(x),
                Ok(w) => Ok(ws.push(w)),
            },
        }
    }
}

/// The words of a program's instructions, or the first error.
pub open spec fn spec_generate(s: Seq<u8>, syms: Map<Seq<u8>, i32>, code: Seq<Instr>) -> Result<
    Seq<u32>,
    AsmError,
> {
    spec_generate_upto(s, syms, code, code.len() as int)
}

/// Label bindings whose names lie within `s`.
pub open spec fn syms_within(s: Seq<u8>, sym: Seq<(Offset, i32)>) -> bool {
    forall|k: int| 0 <= k < sym.len() ==> (#[trigger] sym[k]).0.within(s)
}

/// Instructions whose symbols lie within `s`.
pub open spec fn code_within(s: Seq<u8>, code: Seq<Instr>) -> bool {
    forall|k: int| 0 <= k < code.len() ==> (#[trigger] code[k]).within(s)
}

proof fn lemma_generate_err(s: Seq<u8>, syms: Map<Seq<u8>, i32>, code: Seq<Instr>, k: int, n: int)
    requires
        0 <= k <= n,
        spec_generate_upto(s, syms, code, k) is Err,
    ensures
        spec_generate_upto(s, syms, code, n) == spec_generate_upto(s, syms, code, k),
    decreases n - k,
{
    if k < n {
        lemma_generate_err(s, syms, code, k, n - 1);
    }
}

proof fn lemma_sym_map_suffix(s: Seq<u8>, es: Seq<(Offset, i32)>, k: int, name: Seq<u8>)
    requires
        0 <= k <= es.len(),
        forall|m: int| k <= m < es.len() ==> (#[trigger] es[m]).0.of(s) != name,
    ensures
        sym_map(s, es).contains_key(name) == sym_map(s, es.subrange(0, k)).contains_key(name),
        sym_map(s, es)[name] == sym_map(s, es.subrange(0, k))[name],
    decreases es.len() - k,
{
    if k == es.len() {
        assert(es.subrange(0, k) =~= es);
    } else {
        let d = es.drop_last();
        assert(d.subrange(0, k) =~= es.subrange(0, k));
        assert(es[es.len() - 1].0.of(s) != name);
        lemma_sym_map_suffix(s, d, k, name);
    }
}

impl<'s> Program<'s> {
    /// The bytes of the source text.
    pub closed spec fn src(&self) -> Seq<u8> {
        self.input.spec_bytes()
    }

    /// The instructions, in order.
    pub closed spec fn instrs(&self) -> Seq<Instr> {
        self.code@
    }

    /// The label bindings, in the order of the source.
    pub closed spec fn labels(&self) -> Seq<(Offset, i32)> {
        self.sym@
    }

    /// The symbol table: each label's name and its address.
    pub open spec fn symbols(&self) -> Map<Seq<u8>, i32> {
        sym_map(self.src(), self.labels())
    }

    /// The source fits in memory, and every symbol lies within it.
    pub open spec fn wf(&self) -> bool {
        &&& self.src().len() <= isize::MAX
        &&& syms_within(self.src(), self.labels())
        &&& code_within(self.src(), self.instrs())
    }

    /// The address of the symbol at `offset` of the source.
    pub fn resolve(&self, offset: &Offset) -> (r: Result<i32, AsmError>)
        requires
            self.wf(),
            offset.within(self.src()),
        ensures
            r == (if self.symbols().contains_key(offset.of(self.src())) {
                Ok(self.symbols()[offset.of(self.src())])
            } else {
                Err(fail(self.src(), AsmErrorKind::UnknownSym, offset.offset as int, offset.len as int))
            }),
    {
        let s = self.input.as_bytes();
        let ghost name = offset.of(s@);
        let mut k: usize = self.sym.len();
        while k > 0
            invariant
                s@ == self.src(),
                self.wf(),
                offset.within(s@),
                name == offset.of(s@),
                k <= self.sym@.len(),
                forall|m: int| k <= m < self.sym@.len() ==> (#[trigger] self.sym@[m]).0.of(s@) != name,
            decreases k,
        {
            k -= 1;
            let (o, addr) = self.sym[k];
            assert(self.sym@[k as int].0.within(s@));
            if ranges_eq(s, o.offset, o.len, offset.offset, offset.len) {
                proof {
                    lemma_sym_map_suffix(s@, self.sym@, k + 1, name);
                    assert(self.sym@.subrange(0, k + 1).drop_last() =~= self.sym@.subrange(0, k as int));
                }
                return Ok(addr);
            }
        }
        proof {
            lemma_sym_map_suffix(s@, self.sym@, 0, name);
        }
        Err(AsmError::at(s, AsmErrorKind::UnknownSym, offset.offset, offset.len))
    }

    /// The words of the instructions, in order, or the first error.
    pub fn generate(&self) -> (r: Result<Vec<u32>, AsmError>)
        requires
            self.wf(),
        ensures
            match r {
                Ok(v) => spec_generate(self.src(), self.symbols(), self.instrs()) == Ok::<
                    Seq<u32>,
                    AsmError,
                >(v@),
                Err(x) => spec_generate(self.src(), self.symbols(), self.instrs()) == Err::<
                    Seq<u32>,
                    AsmError,
                >(x),
            },
    {
        let mut out: Vec<u32> = Vec::new();
        let mut k: usize = 0;
        while k < self.code.len()
            invariant
                self.wf(),
                k <= self.code@.len(),
                spec_generate_upto(self.src(), self.symbols(), self.instrs(), k as int) == Ok::<
                    Seq<u32>,
                    AsmError,
                >(out@),
            decreases self.code@.len() - k,
        {
            assert(self.code@[k as int].within(self.src()));
            match self.code[k].code(self, #[verifier::truncate] (k as u32) << 2) {
                Ok(w) => out.push(w),
                Err(e) => {
                    proof {
                        lemma_generate_err(
                            self.src(),
                            self.symbols(),
                            self.instrs(),
                            k + 1,
                            self.code@.len() as int,
                        );
                    }
                    return Err(e);
                },
            }
            k += 1;
        }
        Ok(out)
    }

    /// The address of the next instruction to be added.
    fn curr_addr(&self) -> (r: u32)
        ensures
            r == spec_addr(self.code@.len() as int),
    {
        (#[verifier::truncate] (self.code.len() as u32)) << 2
    }
}

/// Checks what follows the last construct of a line at `q`.
fn parse_tail(s: &[u8], q: usize, e: usize) -> (r: Result<(), AsmError>)
    requires
        q <= e <= s@.len() <= isize::MAX,
    ensures
        r == spec_tail(s@, q, e),
{
    let w = scan_class(s, q, e, Class::Space);
    if w == e || (w > q && s[w] == '#' as u8) {
        Ok(())
    } else {
        Err(AsmError::at(s, AsmErrorKind::Syntax, w, e - w))
    }
}

/// Where a label that starts at `p` ends, if one does.
fn label_end(s: &[u8], p: usize, e: usize) -> (r: Option<usize>)
    requires
        p <= e <= s@.len(),
    ensures
        r == spec_label_end(s@, p, e),
        r matches Some(q) ==> p < q < e,
{
    match parse_sym(s, p, e) {
        Some(q) => if q < e && s[q] == ':' as u8 {
            Some(q)
        } else {
            None
        },
        None => None,
    }
}

impl Line {
    /// Reads an instruction at `p` that ends the line.
    fn parse_instr(s: &[u8], p: usize, e: usize) -> (r: Result<Instr, AsmError>)
        requires
            p <= e <= s@.len() <= isize::MAX,
        ensures
            r == spec_instr_line(s@, p, e),
            r matches Ok(ins) ==> ins.within(s@),
    {
        let (ins, q) = match Instr::parse(s, p, e) {
            Ok(x) => x,
            Err(x) => return Err(x),
        };
        match parse_tail(s, q, e) {
            Ok(_) => Ok(ins),
            Err(x) => Err(x),
        }
    }

    /// Reads the line `s[p..e]`.
    pub fn parse(s: &[u8], p: usize, e: usize) -> (r: Result<Line, AsmError>)
        requires
            p <= e <= s@.len() <= isize::MAX,
        ensures
            r == spec_line(s@, p, e),
            r matches Ok(line) ==> line.within(s@),
    {
        let b = scan_class(s, p, e, Class::Space);
        if b == e {
            return Ok(Line::Blank);
        }
        match label_end(s, b, e) {
            Some(q) => {
                let label = Offset { offset: b, len: q - b };
                let a = q + 1;
                let w = scan_class(s, a, e, Class::Space);
                if a < w && w < e && s[w] != '#' as u8 {
                    match Self::parse_instr(s, w, e) {
                        Ok(ins) => Ok(Line::Label(label, Some(ins))),
                        Err(x) => Err(x),
                    }
                } else {
                    match parse_tail(s, a, e) {
                        Ok(_) => Ok(Line::Label(label, None)),
                        Err(x) => Err(x),
                    }
                }
            },
            None => match Self::parse_instr(s, b, e) {
                Ok(ins) => Ok(Line::Instr(ins)),
                Err(x) => Err(x),
            },
        }
    }
}

impl<'s> Program<'s> {
    /// Parses the source text `input` into its instructions and labels, or
    /// returns the first error in it.
    pub fn parse(input: &'s str) -> (r: Result<Self, AsmError>)
        requires
            input.spec_bytes().len() <= isize::MAX,
        ensures
            match r {
                Ok(program) => {
                    &&& program.wf()
                    &&& program.src() == input.spec_bytes()
                    &&& spec_parse(input.spec_bytes()) == Ok::<
                        (Seq<Instr>, Seq<(Offset, i32)>),
                        AsmError,
                    >((program.instrs(), program.labels()))
                },
                Err(x) => spec_parse(input.spec_bytes()) == Err::<
                    (Seq<Instr>, Seq<(Offset, i32)>),
                    AsmError,
                >(x),
            },
    {
        let mut program = Self { input, code: Vec::new(), sym: Vec::new() };
        match program.parse_code() {
            Ok(_) => Ok(program),
            Err(x) => Err(x),
        }
    }

    /// Reads the source line by line, adding instructions and labels.
    fn parse_code(&mut self) -> (r: Result<(), AsmError>)
        requires
            old(self).src().len() <= isize::MAX,
            old(self).code@.len() == 0,
            old(self).sym@.len() == 0,
        ensures
            final(self).input == old(self).input,
            r is Ok ==> final(self).wf() && spec_parse(final(self).src()) == Ok::<
                (Seq<Instr>, Seq<(Offset, i32)>),
                AsmError,
            >((final(self).code@, final(self).sym@)),
            r matches Err(x) ==> spec_parse(final(self).src()) == Err::<
                (Seq<Instr>, Seq<(Offset, i32)>),
                AsmError,
            >(x),
    {
        let s = self.input.as_bytes();
        let n = s.len();
        let mut p: usize = 0;
        proof {
            assert(self.code@ =~= Seq::<Instr>::empty());
            assert(self.sym@ =~= Seq::<(Offset, i32)>::empty());
        }
        while p < n
            invariant
                s@ == self.src(),
                n == s@.len() <= isize::MAX,
                p <= n + 1,
                self.input == old(self).input,
                syms_within(s@, self.sym@),
                code_within(s@, self.code@),
                spec_parse_from(s@, p as int, (self.code@, self.sym@)) == spec_parse(s@),
            decreases n + 1 - p,
        {
            let e = scan_class(s, p, n, Class::Line);
            match Line::parse(s, p, e) {
                Ok(line) => {
                    self.add_line(line);
                },
                Err(x) => return Err(x),
            }
            p = e + 1;
        }
        Ok(())
    }

    /// Adds a line's label and instruction.
    fn add_line(&mut self, line: Line)
        requires
            line.within(old(self).src()),
            syms_within(old(self).src(), old(self).sym@),
            code_within(old(self).src(), old(self).code@),
        ensures
            final(self).input == old(self).input,
            (final(self).code@, final(self).sym@) == apply_line((old(self).code@, old(self).sym@), line),
            syms_within(final(self).src(), final(self).sym@),
            code_within(final(self).src(), final(self).code@),
    {
        match line {
            Line::Blank => {},
            Line::Instr(ins) => {
                self.code.push(ins);
            },
            Line::Label(name, ins) => {
                let addr = #[verifier::truncate] (self.curr_addr() as i32);
                self.sym.push((name, addr));
                if let Some(ins) = ins {
                    self.code.push(ins);
                }
            },
        }
    }
}

/// A label is bound to the address of the next instruction: after `n`
/// instructions, to `4 * n`. An instruction on the label's own line is the
/// one at that address.
pub proof fn lemma_label_address(
    s: Seq<u8>,
    st: (Seq<Instr>, Seq<(Offset, i32)>),
    name: Offset,
    ins: Option<Instr>,
)
    requires
        st.0.len() < 0x2000_0000,
    ensures
        ({
            let after = apply_line(st, Line::Label(name, ins));
            &&& sym_map(s, after.1).contains_key(name.of(s))
            &&& sym_map(s, after.1)[name.of(s)] == 4 * st.0.len()
            &&& ins matches Some(i) ==> after.0.len() == st.0.len() + 1 && after.0[st.0.len() as int] == i
        }),
{
    let n = st.0.len() as u32;
    assert(n << 2u32 == n * 4) by (bit_vector)
        requires
            n < 0x2000_0000,
    ;
    let after = apply_line(st, Line::Label(name, ins));
    assert(after.1.drop_last() =~= st.1);
}

/// The words that a program generates depend on its source text alone:
/// two programs parsed from the same text generate the same words, or fail
/// with the same error.
pub proof fn lemma_parse_deterministic(a: &Program, b: &Program)
    requires
        a.src() == b.src(),
        spec_parse(a.src()) == Ok::<(Seq<Instr>, Seq<(Offset, i32)>), AsmError>((a.instrs(), a.labels())),
        spec_parse(b.src()) == Ok::<(Seq<Instr>, Seq<(Offset, i32)>), AsmError>((b.instrs(), b.labels())),
    ensures
        spec_generate(a.src(), a.symbols(), a.instrs()) == spec_generate(b.src(), b.symbols(), b.instrs()),
{
}

/// A program of one instruction whose operands are all zero generates one
/// word: the opcode's fixed fields, with every variable field zero.
pub proof fn lemma_single_zero_instruction(s: Seq<u8>, syms: Map<Seq<u8>, i32>, op: OpCode)
    ensures
        spec_generate(s, syms, seq![Instr { op_code: op, operands: zero_operands(op.spec_kind()) }])
            == Ok::<Seq<u32>, AsmError>(seq![op.spec_mask()]),
{
    let ins = Instr { op_code: op, operands: zero_operands(op.spec_kind()) };
    assert((0u32 << 2u32) == 0) by (bit_vector);
    lemma_zero_operands_code(s, syms, op, 0);
    assert(spec_generate_upto(s, syms, seq![ins], 0) == Ok::<Seq<u32>, AsmError>(Seq::empty()));
    assert(Seq::<u32>::empty().push(op.spec_mask()) =~= seq![op.spec_mask()]);
}

} // verus!
