//! A character cursor over a source text that keeps track of line and column.
use vstd::prelude::*;
use vstd::string::StrSliceExecFns;

verus! {

pub struct Tokenizer<'a> {
    pub input: &'a str,
    /// The index, in characters, of the next character.
    pub pos: usize,
    pub line: usize,
    pub col: usize,
}

impl<'a> Tokenizer<'a> {
    pub fn new(input: &'a str) -> (r: Self)
        ensures
            r.input == input,
            r.pos == 0,
            r.line == 1,
            r.col == 1,
    {
        Self { input, pos: 0, line: 1, col: 1 }
    }

    /// Takes the next character. A newline moves to the first column of the
    /// next line; any other character moves one column on.
    pub fn next(&mut self) -> (r: Option<char>)
        requires
            old(self).line < usize::MAX,
            old(self).col < usize::MAX,
        ensures
            final(self).input == old(self).input,
            old(self).pos < old(self).input@.len() ==> {
                &&& r == Some(old(self).input@[old(self).pos as int])
                &&& final(self).pos == old(self).pos + 1
                &&& r == Some('\n') ==> final(self).line == old(self).line + 1 && final(self).col
                    == 1
                &&& r != Some('\n') ==> final(self).line == old(self).line && final(self).col
                    == old(self).col + 1
            },
            old(self).pos >= old(self).input@.len() ==> r is None && *final(self) == *old(self),
    {
        if self.pos >= self.input.unicode_len() {
            return None;
        }
        let c = self.input.get_char(self.pos);
        self.pos = self.pos + 1;
        if c == '\n' {
            self.line = self.line + 1;
            self.col = 1;
        } else {
            self.col = self.col + 1;
        }
        Some(c)
    }

    /// The next character, left in place.
    pub fn peek(&self) -> (r: Option<char>)
        ensures
            self.pos < self.input@.len() ==> r == Some(self.input@[self.pos as int]),
            self.pos >= self.input@.len() ==> r is None,
    {
        if self.pos < self.input.unicode_len() {
            Some(self.input.get_char(self.pos))
        } else {
            None
        }
    }

    pub fn eof(&self) -> (r: bool)
        ensures
            r == (self.pos >= self.input@.len()),
    {
        self.peek().is_none()
    }

    pub fn is_whitespace(&self, c: char) -> (r: bool)
        ensures
            r == (c == ' ' || c == '\t' || c == '\n' || c == '\r'),
    {
        c == ' ' || c == '\t' || c == '\n' || c == '\r'
    }

    pub fn is_digit(&self, c: char) -> (r: bool)
        ensures
            r == ('0' <= c <= '9'),
    {
        c >= '0' && c <= '9'
    }

    pub fn is_hex_digit(&self, c: char) -> (r: bool)
        ensures
            r == (('0' <= c <= '9') || ('a' <= c <= 'f') || ('A' <= c <= 'F')),
    {
        self.is_digit(c) || (c >= 'a' && c <= 'f') || (c >= 'A' && c <= 'F')
    }

    pub fn is_alpha(&self, c: char) -> (r: bool)
        ensures
            r == (('a' <= c <= 'z') || ('A' <= c <= 'Z')),
    {
        (c >= 'a' && c <= 'z') || (c >= 'A' && c <= 'Z')
    }

    pub fn is_alphanumeric(&self, c: char) -> (r: bool)
        ensures
            r == (('a' <= c <= 'z') || ('A' <= c <= 'Z') || ('0' <= c <= '9')),
    {
        self.is_alpha(c) || self.is_digit(c)
    }

    /// Punctuation: brackets, operators, `$`, `#`, `@`, quotes.
    pub fn is_symbol(&self, c: char) -> (r: bool)
        ensures
            r == (c == '(' || c == ')' || c == '{' || c == '}' || c == '[' || c == ']' || c == '<'
                || c == '>' || c == ',' || c == ';' || c == ':' || c == '=' || c == '-' || c == '+'
                || c == '*' || c == '/' || c == '%' || c == '!' || c == '&' || c == '|' || c == '^'
                || c == '~' || c == '$' || c == '#' || c == '@' || c == '\'' || c == '"'),
    {
        match c {
            '(' | ')' | '{' | '}' | '[' | ']' | '<' | '>' | ',' | ';' | ':' | '=' | '-' | '+' | '*'
            | '/' | '%' | '!' | '&' | '|' | '^' | '~' | '$' | '#' | '@' | '\'' | '"' => true,
            _ => false,
        }
    }
}

} // verus!
