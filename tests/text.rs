use wasm_front::lexer::{tokenize, Lexer};
use wasm_front::number::number;
use wasm_front::token::{FloatKind, IntegerKind, Span, Token, TokenKind};
use wasm_front::tokenizer::Tokenizer;

fn classify(text: &str) -> Option<TokenKind> {
    number(text.as_bytes(), 0, text.len())
}

fn sp(start: usize, end: usize) -> Span {
    Span { start, end }
}

fn text_of<'a>(src: &'a str, s: Span) -> &'a str {
    &src[s.start..s.end]
}

#[test]
fn module_parens_and_keyword() {
    let tokens = tokenize("(module)").unwrap();
    assert_eq!(
        tokens,
        vec![
            Token { kind: TokenKind::LeftParen, span: sp(0, 1) },
            Token { kind: TokenKind::Keyword, span: sp(1, 7) },
            Token { kind: TokenKind::RightParen, span: sp(7, 8) },
        ]
    );
    assert_eq!(text_of("(module)", tokens[1].span), "module");
}

#[test]
fn tokens_cover_the_text_without_gaps() {
    let src = "(func $add (param i32 i32) (result i32)\n  local.get 0 \"name\" -0x1.8p3)";
    let tokens = tokenize(src).unwrap();
    assert_eq!(tokens[0].span.start, 0);
    assert_eq!(tokens.last().unwrap().span.end, src.len());
    for pair in tokens.windows(2) {
        assert_eq!(pair[0].span.end, pair[1].span.start);
    }
    for t in &tokens {
        assert!(t.span.start < t.span.end);
    }
    let kinds: Vec<TokenKind> = tokens
        .iter()
        .map(|t| t.kind)
        .filter(|k| *k != TokenKind::Whitespace)
        .collect();
    assert_eq!(kinds[0], TokenKind::LeftParen);
    assert_eq!(kinds[1], TokenKind::Keyword);
    assert_eq!(kinds[2], TokenKind::Identifier);
    assert!(matches!(kinds[kinds.len() - 2], TokenKind::Float(FloatKind::Val { .. })));
}

#[test]
fn lexer_steps_one_token_at_a_time() {
    let mut lexer = Lexer::new("( x");
    assert_eq!(lexer.next(), Some(Ok(Token { kind: TokenKind::LeftParen, span: sp(0, 1) })));
    assert_eq!(lexer.next(), Some(Ok(Token { kind: TokenKind::Whitespace, span: sp(1, 2) })));
    assert_eq!(lexer.next(), Some(Ok(Token { kind: TokenKind::Keyword, span: sp(2, 3) })));
    assert_eq!(lexer.next(), None);
    assert_eq!(lexer.next(), None);
}

#[test]
fn whitespace_is_one_token() {
    let tokens = tokenize(" \t\r\n x").unwrap();
    assert_eq!(tokens[0], Token { kind: TokenKind::Whitespace, span: sp(0, 5) });
    assert_eq!(tokens.len(), 2);
}

#[test]
fn string_literal_span_and_content() {
    let src = "\"hello\" x";
    let tokens = tokenize(src).unwrap();
    assert_eq!(tokens[0], Token { kind: TokenKind::String(sp(1, 6)), span: sp(0, 7) });
    assert_eq!(text_of(src, sp(1, 6)), "hello");
}

#[test]
fn empty_string_literal() {
    let tokens = tokenize("\"\"").unwrap();
    assert_eq!(tokens, vec![Token { kind: TokenKind::String(sp(1, 1)), span: sp(0, 2) }]);
}

#[test]
fn unterminated_string_is_an_error() {
    let err = tokenize("(a \"open").unwrap_err();
    assert_eq!(err.span, sp(3, 8));
    assert_eq!(err.message, "unterminated string literal");
    let mut lexer = Lexer::new("\"open");
    assert!(matches!(lexer.next(), Some(Err(_))));
    assert_eq!(lexer.next(), None);
}

#[test]
fn identifiers_keywords_and_reserved() {
    let kinds = |src: &str| tokenize(src).unwrap()[0].kind;
    assert_eq!(kinds("$foo"), TokenKind::Identifier);
    assert_eq!(kinds("$"), TokenKind::Reserved);
    assert_eq!(kinds("i32.add"), TokenKind::Keyword);
    assert_eq!(kinds("offset=4"), TokenKind::Keyword);
    assert_eq!(kinds("-"), TokenKind::Keyword);
    assert_eq!(kinds("a,b"), TokenKind::Reserved);
    assert_eq!(kinds("~x"), TokenKind::Reserved);
}

#[test]
fn non_ascii_character_stays_whole() {
    let tokens = tokenize("\u{e9}a b").unwrap();
    assert_eq!(tokens[0], Token { kind: TokenKind::Reserved, span: sp(0, 3) });
}

#[test]
fn hex_float_with_binary_exponent() {
    assert_eq!(
        classify("-0x1.8p3"),
        Some(TokenKind::Float(FloatKind::Val {
            negative: true,
            hex: true,
            integral: sp(3, 4),
            fractional: sp(5, 6),
            exponent: 3,
        }))
    );
}

#[test]
fn nan_with_payload() {
    assert_eq!(
        classify("nan:0x200000"),
        Some(TokenKind::Float(FloatKind::Nan { negative: false, value: Some(0x200000) }))
    );
}

#[test]
fn word_is_not_a_number() {
    assert_eq!(classify("foo"), None);
}

#[test]
fn infinities_and_nans() {
    assert_eq!(classify("inf"), Some(TokenKind::Float(FloatKind::Inf { negative: false })));
    assert_eq!(classify("+inf"), Some(TokenKind::Float(FloatKind::Inf { negative: false })));
    assert_eq!(classify("-inf"), Some(TokenKind::Float(FloatKind::Inf { negative: true })));
    assert_eq!(classify("-nan"), Some(TokenKind::Float(FloatKind::Nan { negative: true, value: None })));
    assert_eq!(classify("infinity"), None);
    assert_eq!(classify("nan:0x"), None);
    assert_eq!(classify("nan:0xg1"), None);
    assert_eq!(classify("nan:0x10000000000000000"), None);
    assert_eq!(
        classify("nan:0xffffffffffffffff"),
        Some(TokenKind::Float(FloatKind::Nan { negative: false, value: Some(u64::MAX) }))
    );
}

#[test]
fn integers() {
    assert_eq!(
        classify("42"),
        Some(TokenKind::Integer(IntegerKind::Decimal { src: sp(0, 2), negative: false }))
    );
    assert_eq!(
        classify("-7"),
        Some(TokenKind::Integer(IntegerKind::Decimal { src: sp(1, 2), negative: true }))
    );
    assert_eq!(
        classify("+0x1F"),
        Some(TokenKind::Integer(IntegerKind::Hex { src: sp(3, 5), negative: false }))
    );
    assert_eq!(classify("0x"), None);
    assert_eq!(classify("-"), None);
    assert_eq!(classify("12a"), None);
}

#[test]
fn decimal_floats() {
    assert_eq!(
        classify("1."),
        Some(TokenKind::Float(FloatKind::Val {
            negative: false,
            hex: false,
            integral: sp(0, 1),
            fractional: sp(2, 2),
            exponent: 0,
        }))
    );
    assert_eq!(
        classify("1.5e-3"),
        Some(TokenKind::Float(FloatKind::Val {
            negative: false,
            hex: false,
            integral: sp(0, 1),
            fractional: sp(2, 3),
            exponent: -3,
        }))
    );
    assert_eq!(
        classify("2E+10"),
        Some(TokenKind::Float(FloatKind::Val {
            negative: false,
            hex: false,
            integral: sp(0, 1),
            fractional: sp(1, 1),
            exponent: 10,
        }))
    );
    assert_eq!(classify("1e"), None);
    assert_eq!(classify("1.5x"), None);
    assert_eq!(classify(".5"), None);
    assert_eq!(classify("1p3"), None);
}

#[test]
fn exponent_limits() {
    let min = classify("1e-9223372036854775808");
    assert!(matches!(min, Some(TokenKind::Float(FloatKind::Val { exponent: i64::MIN, .. }))));
    let max = classify("1e9223372036854775807");
    assert!(matches!(max, Some(TokenKind::Float(FloatKind::Val { exponent: i64::MAX, .. }))));
    assert_eq!(classify("1e9223372036854775808"), None);
    assert_eq!(classify("1e-99999999999999999999"), None);
}

#[test]
fn number_token_in_text() {
    let tokens = tokenize("(i32.const -12)").unwrap();
    assert_eq!(
        tokens[3],
        Token {
            kind: TokenKind::Integer(IntegerKind::Decimal { src: sp(12, 14), negative: true }),
            span: sp(11, 14),
        }
    );
}

#[test]
fn token_len_and_text() {
    let src = "(module)";
    let t = Token::new(TokenKind::Keyword, sp(1, 7));
    assert_eq!(t.len(), 6);
    assert_eq!(t.text(src), b"module");
    assert_eq!(Span::from(2..5), sp(2, 5));
}

#[test]
fn tokenizer_tracks_lines_and_columns() {
    let mut t = Tokenizer::new("a\u{e9}\nb");
    assert_eq!(t.peek(), Some('a'));
    assert_eq!(t.next(), Some('a'));
    assert_eq!((t.line, t.col), (1, 2));
    assert_eq!(t.next(), Some('\u{e9}'));
    assert_eq!(t.next(), Some('\n'));
    assert_eq!((t.line, t.col), (2, 1));
    assert!(!t.eof());
    assert_eq!(t.next(), Some('b'));
    assert!(t.eof());
    assert_eq!(t.next(), None);
    assert_eq!(t.pos, 4);
}

#[test]
fn tokenizer_character_classes() {
    let t = Tokenizer::new("");
    assert!(t.is_whitespace('\t') && !t.is_whitespace('x'));
    assert!(t.is_digit('7') && !t.is_digit('a'));
    assert!(t.is_hex_digit('F') && !t.is_hex_digit('g'));
    assert!(t.is_alpha('q') && !t.is_alpha('1'));
    assert!(t.is_alphanumeric('1') && !t.is_alphanumeric('_'));
    assert!(t.is_symbol('~') && !t.is_symbol('a'));
}
