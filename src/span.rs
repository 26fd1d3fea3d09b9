use vstd::prelude::*;

verus! {

/// A byte range of the source text, used for symbols so that their names
/// can be read back from the source when they are resolved.
#[derive(Debug, Clone, Copy)]
pub struct Offset {
    pub offset: usize,
    pub len: usize,
}

impl Offset {
    /// The bytes of `s` that this range covers.
    pub open spec fn of(self, s: Seq<u8>) -> Seq<u8> {
        s.subrange(self.offset as int, self.offset + self.len)
    }

    pub open spec fn within(self, s: Seq<u8>) -> bool {
        self.offset + self.len <= s.len()
    }
}

/// A position in the source text: byte offset and length, and the
/// 1-based line and column (counted in characters) of its first byte.
#[derive(Debug, Clone, Copy)]
pub struct Span {
    pub offset: usize,
    pub len: usize,
    pub line: usize,
    pub col: usize,
}

/// Byte classes that the grammar scans over.
#[derive(Debug, Clone, Copy)]
pub enum Class {
    /// Space or tab.
    Space,
    /// `[A-Za-z]`
    Alpha,
    /// `[A-Za-z0-9]`
    AlNum,
    /// `[A-Za-z0-9_]`
    Word,
    /// `[0-9]`
    Digit,
    /// `[0-9a-fA-F]`
    Hex,
    /// `[0-7]`
    Oct,
    /// `[01]`
    Bin,
    /// Anything but a newline.
    Line,
}

pub open spec fn is_alpha(b: u8) -> bool {
    ('a' as u8 <= b <= 'z' as u8) || ('A' as u8 <= b <= 'Z' as u8)
}

pub open spec fn is_digit(b: u8) -> bool {
    '0' as u8 <= b <= '9' as u8
}

/// First byte of an identifier: `[A-Za-z_]`.
pub open spec fn is_ident_start(b: u8) -> bool {
    is_alpha(b) || b == '_' as u8
}

pub open spec fn in_class(c: Class, b: u8) -> bool {
    match c {
        Class::Space => b == ' ' as u8 || b == '\t' as u8,
        Class::Alpha => is_alpha(b),
        Class::AlNum => is_alpha(b) || is_digit(b),
        Class::Word => is_alpha(b) || is_digit(b) || b == '_' as u8,
        Class::Digit => is_digit(b),
        Class::Hex => is_digit(b) || ('a' as u8 <= b <= 'f' as u8) || ('A' as u8 <= b <= 'F' as u8),
        Class::Oct => '0' as u8 <= b <= '7' as u8,
        Class::Bin => b == '0' as u8 || b == '1' as u8,
        Class::Line => b != '\n' as u8,
    }
}

/// The end of the longest run of bytes of class `c` that starts at `i`
/// and stops at `e` at the latest.
pub open spec fn scan(s: Seq<u8>, i: int, e: int, c: Class) -> int
    decreases e - i,
{
    if 0 <= i < e && i < s.len() && in_class(c, s[i]) {
        scan(s, i + 1, e, c)
    } else {
        i
    }
}

pub proof fn lemma_scan_bounds(s: Seq<u8>, i: int, e: int, c: Class)
    requires
        0 <= i <= e,
    ensures
        i <= scan(s, i, e, c) <= e,
    decreases e - i,
{
    if 0 <= i < e && i < s.len() && in_class(c, s[i]) {
        lemma_scan_bounds(s, i + 1, e, c);
    }
}

pub fn class_has(c: Class, b: u8) -> (r: bool)
    ensures
        r == in_class(c, b),
{
    let alpha = ('a' as u8 <= b && b <= 'z' as u8) || ('A' as u8 <= b && b <= 'Z' as u8);
    let digit = '0' as u8 <= b && b <= '9' as u8;
    match c {
        Class::Space => b == ' ' as u8 || b == '\t' as u8,
        Class::Alpha => alpha,
        Class::AlNum => alpha || digit,
        Class::Word => alpha || digit || b == '_' as u8,
        Class::Digit => digit,
        Class::Hex => digit || ('a' as u8 <= b && b <= 'f' as u8) || ('A' as u8 <= b && b <= 'F' as u8),
        Class::Oct => '0' as u8 <= b && b <= '7' as u8,
        Class::Bin => b == '0' as u8 || b == '1' as u8,
        Class::Line => b != '\n' as u8,
    }
}

/// Scans the run of bytes of class `c` that starts at `i`, up to `e`.
pub fn scan_class(s: &[u8], i: usize, e: usize, c: Class) -> (r: usize)
    requires
        i <= e <= s@.len(),
    ensures
        r == scan(s@, i as int, e as int, c),
        i <= r <= e,
{
    let mut k: usize = i;
    while k < e && class_has(c, s[k])
        invariant
            i <= k <= e <= s@.len(),
            scan(s@, k as int, e as int, c) == scan(s@, i as int, e as int, c),
        decreases e - k,
    {
        k += 1;
    }
    k
}

/// The 1-based line of the byte at `off`.
pub open spec fn line_of(s: Seq<u8>, off: int) -> int
    decreases off,
{
    if off <= 0 {
        1
    } else if s[off - 1] == '\n' as u8 {
        line_of(s, off - 1) + 1
    } else {
        line_of(s, off - 1)
    }
}

/// A byte that continues a UTF-8 sequence rather than starting a character.
pub open spec fn is_continuation(b: u8) -> bool {
    0x80 <= b < 0xc0
}

/// The 1-based column, in characters, of the byte at `off`.
pub open spec fn col_of(s: Seq<u8>, off: int) -> int
    decreases off,
{
    if off <= 0 {
        1
    } else if s[off - 1] == '\n' as u8 {
        1
    } else if is_continuation(s[off - 1]) {
        col_of(s, off - 1)
    } else {
        col_of(s, off - 1) + 1
    }
}

pub open spec fn span_at(s: Seq<u8>, off: int, len: int) -> Span {
    Span {
        offset: off as usize,
        len: len as usize,
        line: line_of(s, off) as usize,
        col: col_of(s, off) as usize,
    }
}

/// The position of the range `offset..offset + len` of the source `s`.
pub fn span_of(s: &[u8], offset: usize, len: usize) -> (r: Span)
    requires
        offset <= s@.len() <= isize::MAX,
    ensures
        r == span_at(s@, offset as int, len as int),
{
    let mut line: usize = 1;
    let mut col: usize = 1;
    let mut k: usize = 0;
    while k < offset
        invariant
            k <= offset <= s@.len() <= isize::MAX,
            line == line_of(s@, k as int),
            col == col_of(s@, k as int),
            1 <= line <= k + 1,
            1 <= col <= k + 1,
        decreases offset - k,
    {
        let b = s[k];
        if b == '\n' as u8 {
            line += 1;
            col = 1;
        } else if !(0x80 <= b && b < 0xc0) {
            col += 1;
        }
        k += 1;
    }
    Span { offset, len, line, col }
}

/// Whether the bytes `s[i..j]` spell out `lit`.
pub fn bytes_eq(s: &[u8], i: usize, j: usize, lit: &[u8]) -> (r: bool)
    requires
        i <= j <= s@.len(),
    ensures
        r == (s@.subrange(i as int, j as int) == lit@),
{
    if j - i != lit.len() {
        proof {
            assert(s@.subrange(i as int, j as int).len() != lit@.len());
        }
        return false;
    }
    let mut k: usize = 0;
    while k < lit.len()
        invariant
            j - i == lit@.len(),
            i <= j <= s@.len(),
            k <= lit@.len(),
            forall|m: int| 0 <= m < k ==> s@[i + m] == lit@[m],
        decreases lit@.len() - k,
    {
        if s[i + k] != lit[k] {
            proof {
                assert(s@.subrange(i as int, j as int)[k as int] != lit@[k as int]);
            }
            return false;
        }
        k += 1;
    }
    proof {
        assert(s@.subrange(i as int, j as int) =~= lit@);
    }
    true
}

/// Whether the two ranges `s[i..i + n]` and `s[k..k + m]` hold the same bytes.
pub fn ranges_eq(s: &[u8], i: usize, n: usize, k: usize, m: usize) -> (r: bool)
    requires
        i + n <= s@.len() <= isize::MAX,
        k + m <= s@.len(),
    ensures
        r == (s@.subrange(i as int, i + n) == s@.subrange(k as int, k + m)),
{
    if n != m {
        proof {
            assert(s@.subrange(i as int, i + n).len() != s@.subrange(k as int, k + m).len());
        }
        return false;
    }
    let mut j: usize = 0;
    while j < n
        invariant
            n == m,
            i + n <= s@.len() <= isize::MAX,
            k + m <= s@.len(),
            j <= n,
            forall|x: int|
                0 <= x < j ==> #[trigger] s@.subrange(i as int, i + n)[x] == s@.subrange(k as int, k + m)[x],
        decreases n - j,
    {
        if s[i + j] != s[k + j] {
            proof {
                assert(s@.subrange(i as int, i + n)[j as int] != s@.subrange(k as int, k + m)[j as int]);
            }
            return false;
        }
        j += 1;
    }
    proof {
        assert(s@.subrange(i as int, i + n) =~= s@.subrange(k as int, k + m));
    }
    true
}

} // verus!
