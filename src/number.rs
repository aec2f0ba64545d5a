//! Classifies a run of source bytes as an integer literal, a floating-point
//! literal, or neither. Classification is all or nothing: a run with anything
//! left over after the number is no number.
use vstd::prelude::*;

use crate::token::{span, FloatKind, IntegerKind, Span, TokenKind};

verus! {

pub open spec fn is_dec_digit(b: u8) -> bool {
    ('0' as u8) <= b <= ('9' as u8)
}

pub open spec fn is_hex_digit(b: u8) -> bool {
    is_dec_digit(b) || ('a' as u8) <= b <= ('f' as u8) || ('A' as u8) <= b <= ('F' as u8)
}

/// A digit of the decimal alphabet, or of the hexadecimal one where `hex`.
pub open spec fn is_digit_of(b: u8, hex: bool) -> bool {
    if hex {
        is_hex_digit(b)
    } else {
        is_dec_digit(b)
    }
}

pub open spec fn digit_value(b: u8) -> nat {
    if is_dec_digit(b) {
        (b - ('0' as u8)) as nat
    } else if ('a' as u8) <= b <= ('f' as u8) {
        (b - ('a' as u8) + 10) as nat
    } else {
        (b - ('A' as u8) + 10) as nat
    }
}

/// Where the longest run of digits that starts at `i` ends, not going past `end`.
pub open spec fn digits_end(s: Seq<u8>, i: int, end: int, hex: bool) -> int
    decreases end - i,
{
    if 0 <= i < end && i < s.len() && is_digit_of(s[i], hex) {
        digits_end(s, i + 1, end, hex)
    } else {
        i
    }
}

/// The value of the digits `s[i..j)` in base `radix`.
pub open spec fn digits_value(s: Seq<u8>, i: int, j: int, radix: nat) -> nat
    decreases j - i,
{
    if j <= i {
        0
    } else {
        digits_value(s, i, j - 1, radix) * radix + digit_value(s[j - 1])
    }
}

/// Whether `s[i..i + lit.len())` spells `lit` and stays before `end`.
pub open spec fn spells(s: Seq<u8>, i: int, end: int, lit: Seq<u8>) -> bool {
    0 <= i && i + lit.len() <= end && end <= s.len() && s.subrange(i, i + lit.len()) == lit
}

pub open spec fn inf_text() -> Seq<u8> {
    seq![('i' as u8), ('n' as u8), ('f' as u8)]
}

pub open spec fn nan_text() -> Seq<u8> {
    seq![('n' as u8), ('a' as u8), ('n' as u8)]
}

pub open spec fn nan_payload_text() -> Seq<u8> {
    seq![('n' as u8), ('a' as u8), ('n' as u8), (':' as u8), ('0' as u8), ('x' as u8)]
}

pub open spec fn hex_prefix() -> Seq<u8> {
    seq![('0' as u8), ('x' as u8)]
}

/// The hexadecimal payload that fills `s[i..end)`: at least one digit, and a
/// value that fits in 64 bits.
pub open spec fn nan_payload(s: Seq<u8>, i: int, end: int) -> Option<u64> {
    if i < end && digits_end(s, i, end, true) == end && digits_value(s, i, end, 16) <= u64::MAX {
        Some(digits_value(s, i, end, 16) as u64)
    } else {
        None
    }
}

pub open spec fn is_exponent_marker(b: u8, hex: bool) -> bool {
    if hex {
        b == ('p' as u8) || b == ('P' as u8)
    } else {
        b == ('e' as u8) || b == ('E' as u8)
    }
}

/// The exponent that fills `s[i..end)`: an optional sign, then at least one
/// decimal digit, with a value that fits in an `i64`.
pub open spec fn exponent(s: Seq<u8>, i: int, end: int) -> Option<i64> {
    let signed = i < end && (s[i] == ('+' as u8) || s[i] == ('-' as u8));
    let negative = i < end && s[i] == ('-' as u8);
    let d = if signed {
        i + 1
    } else {
        i
    };
    let v = digits_value(s, d, end, 10);
    if d < end && digits_end(s, d, end, false) == end {
        if negative && v <= 0x8000_0000_0000_0000 {
            Some((-v) as i64)
        } else if !negative && v <= i64::MAX {
            Some(v as i64)
        } else {
            None
        }
    } else {
        None
    }
}

/// What the run `s[start..end)` is as a number, if it is one. An optional sign
/// comes first; then `inf`, `nan`, `nan:0x` with a payload, or digits (hex
/// after `0x`) followed, for a float, by `.` and more digits and/or an
/// exponent marker with an exponent.
pub open spec fn numeric_literal(s: Seq<u8>, start: int, end: int) -> Option<TokenKind> {
    let negative = start < end && s[start] == ('-' as u8);
    let b = if start < end && (s[start] == ('+' as u8) || s[start] == ('-' as u8)) {
        start + 1
    } else {
        start
    };
    if spells(s, b, end, inf_text()) && end == b + 3 {
        Some(TokenKind::Float(FloatKind::Inf { negative }))
    } else if spells(s, b, end, nan_text()) && end == b + 3 {
        Some(TokenKind::Float(FloatKind::Nan { negative, value: None }))
    } else if spells(s, b, end, nan_payload_text()) {
        match nan_payload(s, b + 6, end) {
            Some(v) => Some(TokenKind::Float(FloatKind::Nan { negative, value: Some(v) })),
            None => None,
        }
    } else {
        let hex = spells(s, b, end, hex_prefix());
        let d0 = if hex {
            b + 2
        } else {
            b
        };
        let d1 = digits_end(s, d0, end, hex);
        if d1 == d0 {
            None
        } else if d1 == end {
            if hex {
                Some(TokenKind::Integer(IntegerKind::Hex { src: span(d0, d1), negative }))
            } else {
                Some(TokenKind::Integer(IntegerKind::Decimal { src: span(d0, d1), negative }))
            }
        } else {
            let dot = s[d1] == ('.' as u8);
            let f0 = if dot {
                d1 + 1
            } else {
                d1
            };
            let f1 = digits_end(s, f0, end, hex);
            let val = |e: i64|
                TokenKind::Float(
                    FloatKind::Val {
                        negative,
                        hex,
                        integral: span(d0, d1),
                        fractional: span(f0, f1),
                        exponent: e,
                    },
                );
            if f1 == end {
                Some(val(0))
            } else if is_exponent_marker(s[f1], hex) {
                match exponent(s, f1 + 1, end) {
                    Some(e) => Some(val(e)),
                    None => None,
                }
            } else {
                None
            }
        }
    }
}

/// Later digits never make a run of digits worth less.
pub proof fn lemma_digits_value_grows(s: Seq<u8>, i: int, j: int, k: int, radix: nat)
    requires
        i <= j <= k,
        radix >= 1,
    ensures
        digits_value(s, i, j, radix) <= digits_value(s, i, k, radix),
    decreases k - j,
{
    if j < k {
        lemma_digits_value_grows(s, i, j, k - 1, radix);
        let v = digits_value(s, i, k - 1, radix);
        assert(v <= v * radix) by (nonlinear_arith)
            requires
                radix >= 1,
        ;
    }
}

fn is_dec_digit_byte(b: u8) -> (r: bool)
    ensures
        r == is_dec_digit(b),
{
    '0' as u8 <= b && b <= '9' as u8
}

fn is_digit_byte(b: u8, hex: bool) -> (r: bool)
    ensures
        r == is_digit_of(b, hex),
{
    if hex {
        is_dec_digit_byte(b) || ('a' as u8 <= b && b <= 'f' as u8) || ('A' as u8 <= b && b
            <= 'F' as u8)
    } else {
        is_dec_digit_byte(b)
    }
}

fn digit_byte_value(b: u8) -> (r: u64)
    requires
        is_hex_digit(b),
    ensures
        r == digit_value(b),
        r < 16,
{
    if is_dec_digit_byte(b) {
        (b - '0' as u8) as u64
    } else if 'a' as u8 <= b && b <= 'f' as u8 {
        (b - 'a' as u8 + 10) as u64
    } else {
        (b - 'A' as u8 + 10) as u64
    }
}

/// Where the longest run of digits from `i` ends, not going past `end`.
fn consume_digits(s: &[u8], i: usize, end: usize, hex: bool) -> (r: usize)
    requires
        i <= end <= s@.len(),
    ensures
        r == digits_end(s@, i as int, end as int, hex),
        i <= r <= end,
{
    let mut j = i;
    while j < end && is_digit_byte(s[j], hex)
        invariant
            i <= j <= end,
            end <= s@.len(),
            digits_end(s@, i as int, end as int, hex) == digits_end(s@, j as int, end as int, hex),
        decreases end - j,
    {
        j = j + 1;
    }
    j
}

/// The value of the digits `s[i..end)` in base `radix`, where it fits in 64 bits.
fn digits_to_u64(s: &[u8], i: usize, end: usize, radix: u64) -> (r: Option<u64>)
    requires
        i <= end <= s@.len(),
        radix == 10 || radix == 16,
        digits_end(s@, i as int, end as int, radix == 16) == end,
    ensures
        digits_value(s@, i as int, end as int, radix as nat) <= u64::MAX ==> r == Some(
            digits_value(s@, i as int, end as int, radix as nat) as u64,
        ),
        digits_value(s@, i as int, end as int, radix as nat) > u64::MAX ==> r is None,
{
    let ghost hex = radix == 16;
    let mut v: u64 = 0;
    let mut j = i;
    while j < end
        invariant
            i <= j <= end,
            end <= s@.len(),
            radix == 10 || radix == 16,
            hex == (radix == 16),
            digits_end(s@, j as int, end as int, hex) == end,
            v == digits_value(s@, i as int, j as int, radix as nat),
        decreases end - j,
    {
        assert(is_digit_of(s@[j as int], hex));
        let d = digit_byte_value(s[j]);
        assert(d < radix);
        if v > (u64::MAX - d) / radix {
            assert(v * radix + d > u64::MAX) by (nonlinear_arith)
                requires
                    v > (u64::MAX - d) as int / radix as int,
                    radix > 0,
                    d <= u64::MAX,
            ;
            proof {
                lemma_digits_value_grows(s@, i as int, j + 1, end as int, radix as nat);
            }
            return None;
        }
        assert(v * radix + d <= u64::MAX) by (nonlinear_arith)
            requires
                v <= (u64::MAX - d) as int / radix as int,
                radix > 0,
                d <= u64::MAX,
        ;
        v = v * radix + d;
        j = j + 1;
    }
    Some(v)
}

/// Whether `s[i..)` spells `lit` before `end`.
fn spells_at(s: &[u8], i: usize, end: usize, lit: &[u8]) -> (r: bool)
    requires
        end <= s@.len(),
    ensures
        r == spells(s@, i as int, end as int, lit@),
{
    if i > end || lit.len() > end - i {
        return false;
    }
    let mut k: usize = 0;
    while k < lit.len()
        invariant
            i + lit@.len() <= end <= s@.len(),
            k <= lit@.len(),
            forall|m: int| 0 <= m < k ==> s@[i + m] == lit@[m],
        decreases lit@.len() - k,
    {
        if s[i + k] != lit[k] {
            assert(s@.subrange(i as int, i + lit@.len())[k as int] != lit@[k as int]);
            return false;
        }
        k = k + 1;
    }
    assert(s@.subrange(i as int, i + lit@.len()) =~= lit@);
    true
}

/// The exponent that fills `s[i..end)`, if it is one.
fn parse_exponent(s: &[u8], i: usize, end: usize) -> (r: Option<i64>)
    requires
        i <= end <= s@.len(),
    ensures
        r == exponent(s@, i as int, end as int),
{
    let signed = i < end && (s[i] == '+' as u8 || s[i] == '-' as u8);
    let negative = i < end && s[i] == '-' as u8;
    let d = if signed {
        i + 1
    } else {
        i
    };
    if !(d < end && consume_digits(s, d, end, false) == end) {
        return None;
    }
    match digits_to_u64(s, d, end, 10) {
        None => None,
        Some(v) => {
            if negative {
                if v == 0x8000_0000_0000_0000 {
                    Some(i64::MIN)
                } else if v < 0x8000_0000_0000_0000 {
                    Some(-(v as i64))
                } else {
                    None
                }
            } else if v <= i64::MAX as u64 {
                Some(v as i64)
            } else {
                None
            }
        },
    }
}

/// Classifies the run `s[start..end)` as a number, or as none.
pub fn number(s: &[u8], start: usize, end: usize) -> (r: Option<TokenKind>)
    requires
        start <= end <= s@.len(),
    ensures
        r == numeric_literal(s@, start as int, end as int),
{
    let negative = start < end && s[start] == '-' as u8;
    let b = if start < end && (s[start] == '+' as u8 || s[start] == '-' as u8) {
        start + 1
    } else {
        start
    };
    let inf: [u8; 3] = ['i' as u8, 'n' as u8, 'f' as u8];
    let nan: [u8; 3] = ['n' as u8, 'a' as u8, 'n' as u8];
    let nan_payload_prefix: [u8; 6] = ['n' as u8, 'a' as u8, 'n' as u8, ':' as u8, '0' as u8, 'x' as u8];
    let prefix: [u8; 2] = ['0' as u8, 'x' as u8];
    assert(inf@ =~= inf_text());
    assert(nan@ =~= nan_text());
    assert(nan_payload_prefix@ =~= nan_payload_text());
    assert(prefix@ =~= hex_prefix());
    if spells_at(s, b, end, &inf) && end == b + 3 {
        return Some(TokenKind::Float(FloatKind::Inf { negative }));
    }
    if spells_at(s, b, end, &nan) && end == b + 3 {
        return Some(TokenKind::Float(FloatKind::Nan { negative, value: None }));
    }
    if spells_at(s, b, end, &nan_payload_prefix) {
        let p = b + 6;
        if !(p < end && consume_digits(s, p, end, true) == end) {
            return None;
        }
        return match digits_to_u64(s, p, end, 16) {
            Some(v) => Some(TokenKind::Float(FloatKind::Nan { negative, value: Some(v) })),
            None => None,
        };
    }
    let hex = spells_at(s, b, end, &prefix);
    let d0 = if hex {
        b + 2
    } else {
        b
    };
    let d1 = consume_digits(s, d0, end, hex);
    if d1 == d0 {
        return None;
    }
    if d1 == end {
        let src = Span { start: d0, end: d1 };
        return if hex {
            Some(TokenKind::Integer(IntegerKind::Hex { src, negative }))
        } else {
            Some(TokenKind::Integer(IntegerKind::Decimal { src, negative }))
        };
    }
    let dot = s[d1] == '.' as u8;
    let f0 = if dot {
        d1 + 1
    } else {
        d1
    };
    let f1 = consume_digits(s, f0, end, hex);
    let exponent = if f1 == end {
        0
    } else if (hex && (s[f1] == 'p' as u8 || s[f1] == 'P' as u8)) || (!hex && (s[f1] == 'e' as u8
        || s[f1] == 'E' as u8)) {
        match parse_exponent(s, f1 + 1, end) {
            Some(e) => e,
            None => {
                return None;
            },
        }
    } else {
        return None;
    };
    Some(
        TokenKind::Float(
            FloatKind::Val {
                negative,
                hex,
                integral: Span { start: d0, end: d1 },
                fractional: Span { start: f0, end: f1 },
                exponent,
            },
        ),
    )
}

} // verus!
