//! Tokens of the text format. A token does not copy its text: it holds byte
//! offsets into the source it was scanned from.
use vstd::prelude::*;
use vstd::slice::slice_subrange;
use vstd::string::StringSliceAdditionalSpecFns;

verus! {

/// A half-open range of byte offsets, `[start, end)`.
#[derive(Debug, Clone, Copy, PartialEq, Eq, Hash, Structural)]
pub struct Span {
    pub start: usize,
    pub end: usize,
}

pub open spec fn span(start: int, end: int) -> Span {
    Span { start: start as usize, end: end as usize }
}

impl From<core::ops::Range<usize>> for Span {
    fn from(range: core::ops::Range<usize>) -> (r: Span)
        ensures
            r == (Span { start: range.start, end: range.end }),
    {
        Span { start: range.start, end: range.end }
    }
}

impl vstd::std_specs::convert::FromSpecImpl<core::ops::Range<usize>> for Span {
    open spec fn obeys_from_spec() -> bool {
        true
    }

    open spec fn from_spec(range: core::ops::Range<usize>) -> Span {
        Span { start: range.start, end: range.end }
    }
}

/// The form of an integer literal: the digits, after any sign and prefix,
/// and whether a minus sign stood before them.
#[derive(Debug, Clone, Copy, PartialEq, Eq, Structural)]
pub enum IntegerKind {
    Decimal { src: Span, negative: bool },
    Hex { src: Span, negative: bool },
}

/// The form of a floating-point literal.
#[derive(Debug, Clone, Copy, PartialEq, Eq)]
pub enum FloatKind {
    Inf { negative: bool },
    /// A NaN, with the payload written after `nan:0x`, if any.
    Nan { negative: bool, value: Option<u64> },
    /// A finite value: integral digits, fractional digits (possibly none) and
    /// an exponent of ten, or of two where `hex` holds.
    Val { negative: bool, hex: bool, integral: Span, fractional: Span, exponent: i64 },
}

#[derive(Debug, Clone, Copy, PartialEq, Eq)]
pub enum TokenKind {
    LeftParen,
    RightParen,
    /// A name that starts with `$`.
    Identifier,
    /// A string literal; the span covers what stands between the quotes.
    String(Span),
    Integer(IntegerKind),
    Float(FloatKind),
    Keyword,
    /// A run of characters that is none of the above.
    Reserved,
    Whitespace,
}

#[derive(Debug, Clone, Copy, PartialEq, Eq)]
pub struct Token {
    pub kind: TokenKind,
    pub span: Span,
}

impl Token {
    pub fn new(kind: TokenKind, span: Span) -> (r: Self)
        ensures
            r.kind == kind,
            r.span == span,
    {
        Self { kind, span }
    }

    /// The number of bytes the token covers.
    pub fn len(&self) -> (r: usize)
        requires
            self.span.start <= self.span.end,
        ensures
            r == self.span.end - self.span.start,
    {
        self.span.end - self.span.start
    }

    /// The bytes of `input` that the token covers.
    pub fn text<'a>(&self, input: &'a str) -> (r: &'a [u8])
        requires
            self.span.start <= self.span.end <= input.spec_bytes().len(),
        ensures
            r@ == input.spec_bytes().subrange(self.span.start as int, self.span.end as int),
    {
        slice_subrange(input.as_bytes(), self.span.start, self.span.end)
    }
}

/// A token that could not be scanned, and where.
#[derive(Debug, Clone, PartialEq, Eq)]
pub struct SyntaxError {
    pub message: String,
    pub span: Span,
}

} // verus!
