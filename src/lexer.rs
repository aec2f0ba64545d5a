//! The scanner for the text format: one maximal token per step, with no
//! backtracking across tokens.
use vstd::prelude::*;
use vstd::string::StringSliceAdditionalSpecFns;

use crate::number::{number, numeric_literal};
use crate::token::{span, Span, SyntaxError, Token, TokenKind};

verus! {

pub open spec fn is_whitespace(b: u8) -> bool {
    b == ' ' as u8 || b == '\t' as u8 || b == '\n' as u8 || b == '\r' as u8
}

pub open spec fn is_alphanumeric(b: u8) -> bool {
    ('a' as u8 <= b <= 'z' as u8) || ('A' as u8 <= b <= 'Z' as u8) || ('0' as u8 <= b <= '9' as u8)
}

/// The characters that a run of reserved text, such as a keyword or a number,
/// may continue with.
pub open spec fn is_legal(b: u8) -> bool {
    is_alphanumeric(b) || b == '!' as u8 || b == '@' as u8 || b == '#' as u8 || b == '$' as u8
        || b == '%' as u8 || b == '^' as u8 || b == '&' as u8 || b == '*' as u8 || b == '-' as u8
        || b == '+' as u8 || b == '=' as u8 || b == '<' as u8 || b == '>' as u8 || b == '?' as u8
        || b == '/' as u8 || b == '\\' as u8 || b == '|' as u8 || b == ':' as u8 || b == ';' as u8
        || b == ',' as u8 || b == '.' as u8 || b == '[' as u8 || b == ']' as u8 || b == '{' as u8
        || b == '}' as u8 || b == '_' as u8 || b == '"' as u8
}

/// The characters of keywords and identifiers: the legal ones but for
/// brackets, braces, `,`, `;` and `"`.
pub open spec fn is_idchar(b: u8) -> bool {
    is_legal(b) && b != ';' as u8 && b != ',' as u8 && b != '[' as u8 && b != ']' as u8 && b
        != '{' as u8 && b != '}' as u8 && b != '"' as u8
}

/// A byte that continues the UTF-8 encoding of a character.
pub open spec fn is_continuation(b: u8) -> bool {
    0x80 <= b <= 0xbf
}

/// The classes of bytes that the scanner takes runs of.
#[derive(Debug, Clone, Copy, PartialEq, Eq, Structural)]
pub enum CharClass {
    Whitespace,
    Legal,
    Continuation,
    NotQuote,
}

pub open spec fn in_class(b: u8, class: CharClass) -> bool {
    match class {
        CharClass::Whitespace => is_whitespace(b),
        CharClass::Legal => is_legal(b),
        CharClass::Continuation => is_continuation(b),
        CharClass::NotQuote => b != '"' as u8,
    }
}

/// Where the longest run of bytes of `class` that starts at `i` ends.
pub open spec fn run_end(s: Seq<u8>, i: int, class: CharClass) -> int
    decreases s.len() - i,
{
    if 0 <= i < s.len() && in_class(s[i], class) {
        run_end(s, i + 1, class)
    } else {
        i
    }
}

/// `s[start..end)` is a keyword: identifier characters, not starting with `$`.
pub open spec fn is_keyword(s: Seq<u8>, start: int, end: int) -> bool {
    &&& start < end
    &&& s[start] != '$' as u8
    &&& forall|i: int| start <= i < end ==> is_idchar(#[trigger] s[i])
}

/// `s[start..end)` is an identifier: `$`, then at least one identifier character.
pub open spec fn is_identifier(s: Seq<u8>, start: int, end: int) -> bool {
    &&& start + 1 < end
    &&& s[start] == '$' as u8
    &&& forall|i: int| start < i < end ==> is_idchar(#[trigger] s[i])
}

/// What a run of reserved text is: a number if it is one, else a keyword, else
/// an identifier, else reserved.
pub open spec fn classify(s: Seq<u8>, start: int, end: int) -> TokenKind {
    match numeric_literal(s, start, end) {
        Some(k) => k,
        None => if is_keyword(s, start, end) {
            TokenKind::Keyword
        } else if is_identifier(s, start, end) {
            TokenKind::Identifier
        } else {
            TokenKind::Reserved
        },
    }
}

/// Where the token that starts at `pos` ends. Reserved text takes its first
/// character whatever it is, then the legal characters that follow.
pub open spec fn token_end(s: Seq<u8>, pos: int) -> int {
    let c = s[pos];
    if c == '(' as u8 || c == ')' as u8 {
        pos + 1
    } else if c == '"' as u8 {
        run_end(s, pos + 1, CharClass::NotQuote) + 1
    } else if is_whitespace(c) {
        run_end(s, pos, CharClass::Whitespace)
    } else {
        run_end(s, run_end(s, pos + 1, CharClass::Continuation), CharClass::Legal)
    }
}

/// The kind of the token that starts at `pos`; none for a string literal that
/// has no closing quote.
pub open spec fn token_kind(s: Seq<u8>, pos: int) -> Option<TokenKind> {
    let c = s[pos];
    if c == '(' as u8 {
        Some(TokenKind::LeftParen)
    } else if c == ')' as u8 {
        Some(TokenKind::RightParen)
    } else if c == '"' as u8 {
        let close = run_end(s, pos + 1, CharClass::NotQuote);
        if close >= s.len() {
            None
        } else {
            Some(TokenKind::String(span(pos + 1, close)))
        }
    } else if is_whitespace(c) {
        Some(TokenKind::Whitespace)
    } else {
        Some(classify(s, pos, token_end(s, pos)))
    }
}

/// The token that starts at `pos`.
pub open spec fn token_at(s: Seq<u8>, pos: int) -> Option<Token> {
    match token_kind(s, pos) {
        Some(kind) => Some(Token { kind, span: span(pos, token_end(s, pos)) }),
        None => None,
    }
}

/// The tokens from `pos` to the end of the text, or none where a token
/// cannot be scanned.
pub open spec fn tokens_from(s: Seq<u8>, pos: int) -> Option<Seq<Token>>
    decreases s.len() - pos,
    via tokens_from_decreases
{
    if pos < 0 || pos >= s.len() {
        Some(seq![])
    } else {
        match token_at(s, pos) {
            None => None,
            Some(t) => match tokens_from(s, token_end(s, pos)) {
                None => None,
                Some(rest) => Some(seq![t] + rest),
            },
        }
    }
}

#[via_fn]
proof fn tokens_from_decreases(s: Seq<u8>, pos: int) {
    if 0 <= pos < s.len() {
        lemma_token_end_bounds(s, pos);
    }
}

pub proof fn lemma_run_end_bounds(s: Seq<u8>, i: int, class: CharClass)
    requires
        0 <= i <= s.len(),
    ensures
        i <= run_end(s, i, class) <= s.len(),
    decreases s.len() - i,
{
    if i < s.len() && in_class(s[i], class) {
        lemma_run_end_bounds(s, i + 1, class);
    }
}

/// A token takes at least one byte, and no more than there are, but for a
/// string literal without a closing quote.
pub proof fn lemma_token_end_bounds(s: Seq<u8>, pos: int)
    requires
        0 <= pos < s.len(),
    ensures
        pos < token_end(s, pos),
        token_kind(s, pos) is Some ==> token_end(s, pos) <= s.len(),
{
    lemma_run_end_bounds(s, pos + 1, CharClass::NotQuote);
    lemma_run_end_bounds(s, pos + 1, CharClass::Whitespace);
    lemma_run_end_bounds(s, pos + 1, CharClass::Continuation);
    lemma_run_end_bounds(s, run_end(s, pos + 1, CharClass::Continuation), CharClass::Legal);
}

pub open spec fn unterminated_message() -> Seq<char> {
    "unterminated string literal"@
}

fn is_whitespace_byte(b: u8) -> (r: bool)
    ensures
        r == is_whitespace(b),
{
    b == ' ' as u8 || b == '\t' as u8 || b == '\n' as u8 || b == '\r' as u8
}

fn is_legal_byte(b: u8) -> (r: bool)
    ensures
        r == is_legal(b),
{
    ('a' as u8 <= b && b <= 'z' as u8) || ('A' as u8 <= b && b <= 'Z' as u8) || ('0' as u8 <= b
        && b <= '9' as u8) || b == '!' as u8 || b == '@' as u8 || b == '#' as u8 || b == '$' as u8
        || b == '%' as u8 || b == '^' as u8 || b == '&' as u8 || b == '*' as u8 || b == '-' as u8
        || b == '+' as u8 || b == '=' as u8 || b == '<' as u8 || b == '>' as u8 || b == '?' as u8
        || b == '/' as u8 || b == '\\' as u8 || b == '|' as u8 || b == ':' as u8 || b == ';' as u8
        || b == ',' as u8 || b == '.' as u8 || b == '[' as u8 || b == ']' as u8 || b == '{' as u8
        || b == '}' as u8 || b == '_' as u8 || b == '"' as u8
}

fn is_idchar_byte(b: u8) -> (r: bool)
    ensures
        r == is_idchar(b),
{
    is_legal_byte(b) && b != ';' as u8 && b != ',' as u8 && b != '[' as u8 && b != ']' as u8 && b
        != '{' as u8 && b != '}' as u8 && b != '"' as u8
}

fn in_class_byte(b: u8, class: CharClass) -> (r: bool)
    ensures
        r == in_class(b, class),
{
    match class {
        CharClass::Whitespace => is_whitespace_byte(b),
        CharClass::Legal => is_legal_byte(b),
        CharClass::Continuation => 0x80 <= b && b <= 0xbf,
        CharClass::NotQuote => b != '"' as u8,
    }
}

/// Whether `s[start..end)` is a keyword.
fn keyword(s: &[u8], start: usize, end: usize) -> (r: bool)
    requires
        start <= end <= s@.len(),
    ensures
        r == is_keyword(s@, start as int, end as int),
{
    if start == end || s[start] == '$' as u8 {
        return false;
    }
    let mut i = start;
    while i < end
        invariant
            start <= i <= end <= s@.len(),
            forall|k: int| start <= k < i ==> is_idchar(#[trigger] s@[k]),
        decreases end - i,
    {
        if !is_idchar_byte(s[i]) {
            return false;
        }
        i = i + 1;
    }
    true
}

/// Whether `s[start..end)` is an identifier.
fn identifier(s: &[u8], start: usize, end: usize) -> (r: bool)
    requires
        start <= end <= s@.len(),
    ensures
        r == is_identifier(s@, start as int, end as int),
{
    if end - start < 2 || s[start] != '$' as u8 {
        return false;
    }
    let mut i = start + 1;
    while i < end
        invariant
            start < i <= end <= s@.len(),
            forall|k: int| start < k < i ==> is_idchar(#[trigger] s@[k]),
        decreases end - i,
    {
        if !is_idchar_byte(s[i]) {
            return false;
        }
        i = i + 1;
    }
    true
}

/// A scanner over the bytes of a source text. Each call of `next` yields the
/// token at the current position and moves past it.
pub struct Lexer<'a> {
    source: &'a [u8],
    pos: usize,
}

impl<'a> Lexer<'a> {
    /// The bytes of the source text.
    pub closed spec fn input(&self) -> Seq<u8> {
        self.source@
    }

    /// The position of the next token.
    pub closed spec fn offset(&self) -> int {
        self.pos as int
    }

    pub fn new(source: &'a str) -> (r: Self)
        ensures
            r.input() == source.spec_bytes(),
            r.offset() == 0,
    {
        Self { source: source.as_bytes(), pos: 0 }
    }

    /// Where the longest run of `class` from `i` ends.
    fn run(&self, i: usize, class: CharClass) -> (r: usize)
        requires
            i <= self.source@.len(),
        ensures
            r == run_end(self.source@, i as int, class),
            i <= r <= self.source@.len(),
    {
        proof {
            lemma_run_end_bounds(self.source@, i as int, class);
        }
        let mut j = i;
        while j < self.source.len() && in_class_byte(self.source[j], class)
            invariant
                i <= j <= self.source@.len(),
                run_end(self.source@, i as int, class) == run_end(self.source@, j as int, class),
            decreases self.source@.len() - j,
        {
            j = j + 1;
        }
        j
    }

    fn left_paren(&mut self) -> (r: Token)
        requires
            old(self).pos < old(self).source@.len() <= usize::MAX,
            old(self).source@[old(self).pos as int] == '(' as u8,
        ensures
            final(self).source@ == old(self).source@,
            token_at(old(self).source@, old(self).pos as int) == Some(r),
            final(self).pos == token_end(old(self).source@, old(self).pos as int),
    {
        let start = self.pos;
        self.pos = start + 1;
        Token::new(TokenKind::LeftParen, Span { start, end: start + 1 })
    }

    fn right_paren(&mut self) -> (r: Token)
        requires
            old(self).pos < old(self).source@.len() <= usize::MAX,
            old(self).source@[old(self).pos as int] == ')' as u8,
        ensures
            final(self).source@ == old(self).source@,
            token_at(old(self).source@, old(self).pos as int) == Some(r),
            final(self).pos == token_end(old(self).source@, old(self).pos as int),
    {
        let start = self.pos;
        self.pos = start + 1;
        Token::new(TokenKind::RightParen, Span { start, end: start + 1 })
    }

    fn string_literal(&mut self) -> (r: Result<Token, SyntaxError>)
        requires
            old(self).pos < old(self).source@.len() <= usize::MAX,
            old(self).source@[old(self).pos as int] == '"' as u8,
        ensures
            final(self).source@ == old(self).source@,
            match token_at(old(self).source@, old(self).pos as int) {
                Some(t) => r == Ok::<Token, SyntaxError>(t) && final(self).pos == token_end(
                    old(self).source@,
                    old(self).pos as int,
                ),
                None => (r matches Err(e) && e.span == span(
                    old(self).pos as int,
                    old(self).source@.len() as int,
                ) && e.message@ == unterminated_message()) && final(self).pos
                    == old(self).source@.len(),
            },
    {
        let start = self.pos;
        let close = self.run(start + 1, CharClass::NotQuote);
        if close >= self.source.len() {
            self.pos = self.source.len();
            return Err(
                SyntaxError {
                    message: "unterminated string literal".to_owned(),
                    span: Span { start, end: self.source.len() },
                },
            );
        }
        self.pos = close + 1;
        Ok(Token::new(TokenKind::String(Span { start: start + 1, end: close }), Span { start, end: close + 1 }))
    }

    fn whitespace(&mut self) -> (r: Token)
        requires
            old(self).pos < old(self).source@.len(),
            is_whitespace(old(self).source@[old(self).pos as int]),
        ensures
            final(self).source@ == old(self).source@,
            token_at(old(self).source@, old(self).pos as int) == Some(r),
            final(self).pos == token_end(old(self).source@, old(self).pos as int),
    {
        let start = self.pos;
        let end = self.run(start, CharClass::Whitespace);
        self.pos = end;
        Token::new(TokenKind::Whitespace, Span { start, end })
    }

    /// A run of reserved text, classified as a number, a keyword, an
    /// identifier, or reserved.
    fn reserved(&mut self) -> (r: Token)
        requires
            old(self).pos < old(self).source@.len() <= usize::MAX,
            ({
                let c = old(self).source@[old(self).pos as int];
                c != '(' as u8 && c != ')' as u8 && c != '"' as u8 && !is_whitespace(c)
            }),
        ensures
            final(self).source@ == old(self).source@,
            token_at(old(self).source@, old(self).pos as int) == Some(r),
            final(self).pos == token_end(old(self).source@, old(self).pos as int),
    {
        let start = self.pos;
        let first = self.run(start + 1, CharClass::Continuation);
        let end = self.run(first, CharClass::Legal);
        self.pos = end;
        let kind = match number(self.source, start, end) {
            Some(k) => k,
            None => if keyword(self.source, start, end) {
                TokenKind::Keyword
            } else if identifier(self.source, start, end) {
                TokenKind::Identifier
            } else {
                TokenKind::Reserved
            },
        };
        Token::new(kind, Span { start, end })
    }

    /// The next token, or none at the end of the text. A string literal
    /// without a closing quote is an error that takes the rest of the text.
    pub fn next(&mut self) -> (r: Option<Result<Token, SyntaxError>>)
        ensures
            final(self).input() == old(self).input(),
            old(self).offset() >= old(self).input().len() ==> r is None && final(self).offset()
                == old(self).offset(),
            old(self).offset() < old(self).input().len() ==> match token_at(
                old(self).input(),
                old(self).offset(),
            ) {
                Some(t) => r == Some(Ok::<Token, SyntaxError>(t)) && final(self).offset()
                    == token_end(old(self).input(), old(self).offset()),
                None => (r matches Some(Err(e)) && e.span == span(
                    old(self).offset(),
                    old(self).input().len() as int,
                ) && e.message@ == unterminated_message()) && final(self).offset()
                    == old(self).input().len(),
            },
    {
        let len = self.source.len();
        if self.pos >= len {
            return None;
        }
        let c = self.source[self.pos];
        if c == '(' as u8 {
            Some(Ok(self.left_paren()))
        } else if c == ')' as u8 {
            Some(Ok(self.right_paren()))
        } else if c == '"' as u8 {
            Some(self.string_literal())
        } else if is_whitespace_byte(c) {
            Some(Ok(self.whitespace()))
        } else {
            Some(Ok(self.reserved()))
        }
    }
}

/// Scans a whole text: every token in order, or the first error.
pub fn tokenize(source: &str) -> (r: Result<Vec<Token>, SyntaxError>)
    ensures
        match tokens_from(source.spec_bytes(), 0) {
            Some(ts) => (r matches Ok(v) && v@ == ts),
            None => (r matches Err(e) && e.message@ == unterminated_message() && e.span.end
                == source.spec_bytes().len()),
        },
{
    let ghost s = source.spec_bytes();
    let mut lexer = Lexer::new(source);
    let mut tokens: Vec<Token> = Vec::new();
    loop
        invariant
            lexer.input() == s,
            s == source.spec_bytes(),
            0 <= lexer.offset(),
            match tokens_from(s, lexer.offset()) {
                Some(rest) => tokens_from(s, 0) == Some(tokens@ + rest),
                None => tokens_from(s, 0) is None,
            },
        decreases s.len() - lexer.offset(),
    {
        proof {
            if lexer.offset() < s.len() {
                lemma_token_end_bounds(s, lexer.offset());
            }
        }
        match lexer.next() {
            None => {
                assert(tokens@ + seq![] =~= tokens@);
                return Ok(tokens);
            },
            Some(Err(e)) => {
                return Err(e);
            },
            Some(Ok(t)) => {
                let ghost before = tokens@;
                tokens.push(t);
                proof {
                    if let Some(rest) = tokens_from(s, lexer.offset()) {
                        assert(before + (seq![t] + rest) =~= tokens@ + rest);
                    }
                }
            },
        }
    }
}

/// The tokens of a text cover it with no gap and no overlap: the first starts
/// where scanning starts, each ends where the next one starts, the last ends
/// at the end of the text, none is empty, and each is the token that scanning
/// finds at its start.
pub proof fn lemma_tokens_tile(s: Seq<u8>, pos: int)
    requires
        0 <= pos <= s.len(),
        s.len() <= usize::MAX,
        tokens_from(s, pos) is Some,
    ensures
        ({
            let ts = tokens_from(s, pos)->Some_0;
            &&& (ts.len() > 0 <==> pos < s.len())
            &&& ts.len() > 0 ==> ts[0].span.start == pos && ts.last().span.end == s.len()
            &&& forall|i: int|
                0 <= i < ts.len() ==> #[trigger] ts[i].span.start < ts[i].span.end && token_at(
                    s,
                    ts[i].span.start as int,
                ) == Some(ts[i])
            &&& forall|i: int|
                0 <= i < ts.len() - 1 ==> #[trigger] ts[i].span.end == ts[i + 1].span.start
        }),
    decreases s.len() - pos,
{
    if pos < s.len() {
        lemma_token_end_bounds(s, pos);
        let e = token_end(s, pos);
        lemma_tokens_tile(s, e);
        let t = token_at(s, pos)->Some_0;
        let rest = tokens_from(s, e)->Some_0;
        let ts = tokens_from(s, pos)->Some_0;
        assert(ts == seq![t] + rest);
        assert forall|i: int| 0 < i < ts.len() implies ts[i] == rest[i - 1] by {}
        assert forall|i: int| 0 <= i < ts.len() - 1 implies #[trigger] ts[i].span.end == ts[i
            + 1].span.start by {
            if i > 0 {
                assert(rest[i - 1].span.end == rest[i].span.start);
            }
        }
        assert forall|i: int| 0 <= i < ts.len() implies #[trigger] ts[i].span.start
            < ts[i].span.end && token_at(s, ts[i].span.start as int) == Some(ts[i]) by {
            if i > 0 {
                assert(rest[i - 1].span.start < rest[i - 1].span.end);
            }
        }
    }
}

} // verus!
