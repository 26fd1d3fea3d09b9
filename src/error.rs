use vstd::prelude::*;

use crate::span::{scan, scan_class, span_at, span_of, Class, Span};

verus! {

/// What went wrong.
#[derive(Debug, Clone, Copy, PartialEq, Eq, Structural)]
pub enum AsmErrorKind {
    /// The line does not follow the grammar (such as content left over
    /// after an instruction).
    Syntax,
    /// The operands of an instruction do not have its format's shape.
    InvalidInstr,
    /// The mnemonic is neither an instruction nor a pseudo-instruction.
    InvalidOpCode,
    /// An operand that should name a register does not.
    InvalidReg,
    /// An operand that should be an immediate is not one.
    InvalidImm,
    /// The operands of a pseudo-instruction do not have its shape.
    InvalidPseudo,
    /// A symbol that no label defines.
    UnknownSym,
}

/// An error, with the place in the source where it was found.
#[derive(Debug, Clone, Copy)]
pub struct AsmError {
    pub span: Span,
    pub kind: AsmErrorKind,
}

/// The error of kind `kind` found at the range `at..at + len` of `s`.
pub open spec fn fail(s: Seq<u8>, kind: AsmErrorKind, at: int, len: int) -> AsmError {
    AsmError { span: span_at(s, at, len), kind }
}

/// Where the line that holds the byte at `off` starts.
pub open spec fn line_start(s: Seq<u8>, off: int) -> int
    decreases off,
{
    if off <= 0 {
        0
    } else if s[off - 1] == '\n' as u8 {
        off
    } else {
        line_start(s, off - 1)
    }
}

/// ASCII white space.
pub open spec fn is_white(b: u8) -> bool {
    b == ' ' as u8 || b == '\t' as u8 || b == '\r' as u8 || b == 0x0b || b == 0x0c
}

/// The end of `s[i..j]` once the white space at its end is dropped.
pub open spec fn trim_end(s: Seq<u8>, i: int, j: int) -> int
    decreases j - i,
{
    if j > i && is_white(s[j - 1]) {
        trim_end(s, i, j - 1)
    } else {
        j
    }
}

impl AsmError {
    /// Builds the error of kind `kind` at the range `at..at + len` of `s`.
    pub fn at(s: &[u8], kind: AsmErrorKind, at: usize, len: usize) -> (r: Self)
        requires
            at <= s@.len() <= isize::MAX,
        ensures
            r == fail(s@, kind, at as int, len as int),
    {
        AsmError { span: span_of(s, at, len), kind }
    }

    /// The same error, of another kind.
    pub fn with_kind(self, kind: AsmErrorKind) -> (r: Self)
        ensures
            r == (AsmError { span: self.span, kind }),
    {
        Self { span: self.span, kind }
    }
    /// The bounds of the line of `s` that holds the error, without the white
    /// space at its end: what a diagnostic shows above its caret.
    pub fn line_bounds(&self, s: &[u8]) -> (r: (usize, usize))
        requires
            self.span.offset <= s@.len(),
        ensures
            r.0 == line_start(s@, self.span.offset as int),
            r.1 == trim_end(s@, r.0 as int, scan(s@, r.0 as int, s@.len() as int, Class::Line)),
            r.0 <= r.1 <= s@.len(),
    {
        let mut start: usize = self.span.offset;
        while start > 0 && s[start - 1] != '\n' as u8
            invariant
                start <= self.span.offset <= s@.len(),
                line_start(s@, start as int) == line_start(s@, self.span.offset as int),
            decreases start,
        {
            start -= 1;
        }
        let full = scan_class(s, start, s.len(), Class::Line);
        let mut end: usize = full;
        while end > start && is_white_byte(s[end - 1])
            invariant
                start <= end <= full <= s@.len(),
                trim_end(s@, start as int, end as int) == trim_end(s@, start as int, full as int),
            decreases end,
        {
            end -= 1;
        }
        (start, end)
    }
}

fn is_white_byte(b: u8) -> (r: bool)
    ensures
        r == is_white(b),
{
    b == ' ' as u8 || b == '\t' as u8 || b == '\r' as u8 || b == 0x0b || b == 0x0c
}

} // verus!
