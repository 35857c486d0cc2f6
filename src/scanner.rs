//! The scanner: source bytes to tokens.
use crate::bigint::BigInt;
use crate::errors::{Error, Fault};
use crate::float::{ask, follows, ready, silent, Answer, FloatAnswer, FloatQuery, Query};
use crate::text::push_char;
use crate::token::{LiteralValue, Tok, Token, TokenType, Val};
use vstd::prelude::*;

verus! {

/// An ASCII decimal digit.
pub open spec fn digit(c: char) -> bool {
    48 <= (c as u32) <= 57
}

/// An ASCII letter.
pub open spec fn alpha(c: char) -> bool {
    (97 <= (c as u32) <= 122) || (65 <= (c as u32) <= 90)
}

/// A character that may continue an identifier.
pub open spec fn word(c: char) -> bool {
    alpha(c) || digit(c) || c == '_'
}

/// Whether `ch` is an ASCII decimal digit.
pub fn is_digit(ch: char) -> (r: bool)
    ensures
        r == digit(ch),
{
    (ch as u32) >= 48 && (ch as u32) <= 57
}

/// Whether `ch` is an ASCII letter.
pub fn is_alpha(ch: char) -> (r: bool)
    ensures
        r == alpha(ch),
{
    ((ch as u32) >= 97 && (ch as u32) <= 122) || ((ch as u32) >= 65 && (ch as u32) <= 90)
}

/// Whether `ch` may continue an identifier: a letter, a digit or `_`.
pub fn is_valid_literal(ch: char) -> (r: bool)
    ensures
        r == word(ch),
{
    is_alpha(ch) || is_digit(ch) || ch == '_'
}

/// The character that a source byte stands for.
pub open spec fn chr(b: u8) -> char {
    b as char
}

/// The text of a run of source bytes, one character per byte.
pub open spec fn text_of(s: Seq<u8>) -> Seq<char> {
    s.map_values(|b: u8| chr(b))
}

/// The reserved word that a text spells, if any.
pub open spec fn keyword(t: Seq<char>) -> Option<TokenType> {
    if t == "and"@ {
        Some(TokenType::AND)
    } else if t == "class"@ {
        Some(TokenType::CLASS)
    } else if t == "else"@ {
        Some(TokenType::ELSE)
    } else if t == "false"@ {
        Some(TokenType::FALSE)
    } else if t == "for"@ {
        Some(TokenType::FOR)
    } else if t == "fun"@ {
        Some(TokenType::FUN)
    } else if t == "if"@ {
        Some(TokenType::IF)
    } else if t == "nil"@ {
        Some(TokenType::NIL)
    } else if t == "or"@ {
        Some(TokenType::OR)
    } else if t == "print"@ {
        Some(TokenType::PRINT)
    } else if t == "return"@ {
        Some(TokenType::RETURN)
    } else if t == "super"@ {
        Some(TokenType::SUPER)
    } else if t == "this"@ {
        Some(TokenType::THIS)
    } else if t == "true"@ {
        Some(TokenType::TRUE)
    } else if t == "var"@ {
        Some(TokenType::VAR)
    } else if t == "while"@ {
        Some(TokenType::WHILE)
    } else {
        None
    }
}

/// The end of the run of digits from `i` on.
pub open spec fn digits_end(src: Seq<u8>, i: int) -> int
    decreases src.len() - i,
{
    if i < 0 || i >= src.len() || !digit(chr(src[i])) {
        i
    } else {
        digits_end(src, i + 1)
    }
}

/// The end of the run of identifier characters from `i` on.
pub open spec fn word_end(src: Seq<u8>, i: int) -> int
    decreases src.len() - i,
{
    if i < 0 || i >= src.len() || !word(chr(src[i])) {
        i
    } else {
        word_end(src, i + 1)
    }
}

/// The position of the first newline from `i` on, or the end of the source.
pub open spec fn line_end(src: Seq<u8>, i: int) -> int
    decreases src.len() - i,
{
    if i < 0 || i >= src.len() || chr(src[i]) == '\n' {
        i
    } else {
        line_end(src, i + 1)
    }
}

/// The position of the first `"` from `i` on, or the end of the source.
pub open spec fn quote_end(src: Seq<u8>, i: int) -> int
    decreases src.len() - i,
{
    if i < 0 || i >= src.len() || chr(src[i]) == '"' {
        i
    } else {
        quote_end(src, i + 1)
    }
}

/// The number of newlines in a run of bytes.
pub open spec fn newlines(s: Seq<u8>) -> nat
    decreases s.len(),
{
    if s.len() == 0 {
        0
    } else {
        newlines(s.drop_last()) + if s.last() == 10 {
            1nat
        } else {
            0nat
        }
    }
}

/// The value of a run of decimal digits.
pub open spec fn digits_value(s: Seq<u8>) -> int
    decreases s.len(),
{
    if s.len() == 0 {
        0
    } else {
        digits_value(s.drop_last()) * 10 + (s.last() - 48)
    }
}

/// A byte that may follow an integer literal.
pub open spec fn ends_integer(b: u8) -> bool {
    ends_float(b) || b == 46
}

/// A byte that may follow a floating-point literal: an operator symbol,
/// whitespace, `;` or a parenthesis.
pub open spec fn ends_float(b: u8) -> bool {
    chr(b) == '=' || chr(b) == '!' || chr(b) == '*' || chr(b) == '+' || chr(b) == '-' || chr(b)
        == '/' || chr(b) == '>' || chr(b) == '<' || chr(b) == ';' || chr(b) == ')' || chr(b)
        == '(' || chr(b) == '%' || b == 32 || b == 9 || b == 13 || b == 10
}

/// The token that an error about a malformed literal names.
pub open spec fn bad_token(line: nat) -> Tok {
    Tok { kind: TokenType::BAD_TOKEN, lexeme: Seq::empty(), literal: None, line }
}

/// The token that ends every scan.
pub open spec fn eof_token(line: nat) -> Tok {
    Tok { kind: TokenType::EOF, lexeme: Seq::empty(), literal: None, line }
}

/// What one step of the scanner does at a position.
pub enum Step {
    /// A token, the position after it and the line there.
    Emit(Tok, int, nat),
    /// Nothing to emit: whitespace or a comment.
    Skip(int, nat),
    Fail(Fault),
}

/// A token spanning `src[start..end]`.
pub open spec fn span_token(
    src: Seq<u8>,
    start: int,
    end: int,
    kind: TokenType,
    literal: Option<Val>,
    line: nat,
) -> Step {
    Step::Emit(
        Tok { kind, lexeme: text_of(src.subrange(start, end)), literal, line },
        end,
        line,
    )
}

/// An operator of one character, or of two where the second is `=`.
pub open spec fn one_or_two(
    src: Seq<u8>,
    start: int,
    line: nat,
    one: TokenType,
    two: TokenType,
) -> Step {
    if start + 1 < src.len() && chr(src[start + 1]) == '=' {
        span_token(src, start, start + 2, two, None, line)
    } else {
        span_token(src, start, start + 1, one, None, line)
    }
}

/// A string literal opening at `start`.
pub open spec fn string_step(src: Seq<u8>, start: int, line: nat) -> Step {
    let close = quote_end(src, start + 1);
    if close >= src.len() {
        Step::Fail(Fault::UnterminatedString(line as i128))
    } else {
        let l = line + newlines(src.subrange(start + 1, close));
        Step::Emit(
            Tok {
                kind: TokenType::STRING,
                lexeme: text_of(src.subrange(start, close + 1)),
                literal: Some(Val::Str(text_of(src.subrange(start + 1, close)))),
                line: l,
            },
            close + 1,
            l,
        )
    }
}

/// A number literal starting at `start`.
pub open spec fn number_step(src: Seq<u8>, start: int, line: nat, m: spec_fn(Query) -> Answer) -> Step {
    let q = digits_end(src, start);
    if q + 1 < src.len() && chr(src[q]) == '.' && digit(chr(src[q + 1])) {
        let e = digits_end(src, q + 1);
        let t = text_of(src.subrange(start, e));
        if e < src.len() && !ends_float(src[e]) {
            Step::Fail(Fault::ExpectedAToken(bad_token(line), float_follow_message()))
        } else {
            match m(Query::Parse(t)) {
                Answer::Bits(b) => span_token(src, start, e, TokenType::NUMBER, Some(Val::Float(b)), line),
                _ => Step::Fail(Fault::Parsing("cannot parse "@ + t + " as Float"@, line as i128)),
            }
        }
    } else {
        if q < src.len() && !ends_integer(src[q]) {
            Step::Fail(Fault::ExpectedAToken(bad_token(line), integer_follow_message()))
        } else {
            span_token(
                src,
                start,
                q,
                TokenType::NUMBER,
                Some(Val::Int(digits_value(src.subrange(start, q)))),
                line,
            )
        }
    }
}

/// An identifier or reserved word starting at `start`.
pub open spec fn word_step(src: Seq<u8>, start: int, line: nat) -> Step {
    let e = word_end(src, start);
    let t = text_of(src.subrange(start, e));
    match keyword(t) {
        Some(k) => span_token(src, start, e, k, None, line),
        None => span_token(src, start, e, TokenType::IDENTIFIER, Some(Val::Ident(t)), line),
    }
}

/// What the scanner does at `start`, on line `line`.
pub open spec fn step(src: Seq<u8>, start: int, line: nat, m: spec_fn(Query) -> Answer) -> Step {
    let c = chr(src[start]);
    let single = |k: TokenType| span_token(src, start, start + 1, k, None, line);
    if c == '(' {
        single(TokenType::LEFT_PAREN)
    } else if c == ')' {
        single(TokenType::RIGHT_PAREN)
    } else if c == '{' {
        single(TokenType::LEFT_BRACE)
    } else if c == '}' {
        single(TokenType::RIGHT_BRACE)
    } else if c == ',' {
        single(TokenType::COMMA)
    } else if c == '.' {
        single(TokenType::DOT)
    } else if c == '-' {
        single(TokenType::MINUS)
    } else if c == '+' {
        single(TokenType::PLUS)
    } else if c == ';' {
        single(TokenType::SEMICOLON)
    } else if c == '*' {
        single(TokenType::STAR)
    } else if c == '%' {
        single(TokenType::MODULO)
    } else if c == '!' {
        one_or_two(src, start, line, TokenType::BANG, TokenType::BANG_EQUAL)
    } else if c == '=' {
        one_or_two(src, start, line, TokenType::EQUAL, TokenType::EQUAL_EQUAL)
    } else if c == '<' {
        one_or_two(src, start, line, TokenType::LESS, TokenType::LESS_EQUAL)
    } else if c == '>' {
        one_or_two(src, start, line, TokenType::GREATER, TokenType::GREATER_EQUAL)
    } else if c == '/' {
        if start + 1 < src.len() && chr(src[start + 1]) == '/' {
            Step::Skip(line_end(src, start + 2), line)
        } else {
            single(TokenType::SLASH)
        }
    } else if c == ' ' || c == '\t' || c == '\r' {
        Step::Skip(start + 1, line)
    } else if c == '\n' {
        Step::Skip(start + 1, line + 1)
    } else if c == '"' {
        string_step(src, start, line)
    } else if digit(c) {
        number_step(src, start, line, m)
    } else if alpha(c) {
        word_step(src, start, line)
    } else {
        Step::Fail(Fault::UnknownToken(c, line as i128))
    }
}

/// The tokens of `src` from position `pos` on, starting on line `line`. The
/// branch for a step that does not move forward is never taken (see
/// `law_step_advances`); it only makes the recursion well founded.
pub open spec fn scan_from(src: Seq<u8>, pos: int, line: nat, m: spec_fn(Query) -> Answer) -> Result<
    Seq<Tok>,
    Fault,
>
    decreases src.len() - pos,
{
    if pos < 0 || pos >= src.len() {
        Ok(seq![eof_token(line)])
    } else {
        match step(src, pos, line, m) {
            Step::Fail(f) => Err(f),
            Step::Skip(p, l) => if p <= pos || p > src.len() {
                Err(Fault::UnknownToken(chr(src[pos]), line as i128))
            } else {
                scan_from(src, p, l, m)
            },
            Step::Emit(t, p, l) => if p <= pos || p > src.len() {
                Err(Fault::UnknownToken(chr(src[pos]), line as i128))
            } else {
                match scan_from(src, p, l, m) {
                    Ok(ts) => Ok(seq![t] + ts),
                    Err(f) => Err(f),
                }
            },
        }
    }
}

/// True when the step at `start` asks the floating-point unit: it reads a
/// well-delimited decimal literal `digits.digits`.
pub open spec fn asks_parse(src: Seq<u8>, start: int) -> bool {
    0 <= start < src.len() && digit(chr(src[start])) && {
        let q = digits_end(src, start);
        q + 1 < src.len() && chr(src[q]) == '.' && digit(chr(src[q + 1])) && {
            let e = digits_end(src, q + 1);
            !(e < src.len() && !ends_float(src[e]))
        }
    }
}

/// The tokens of `src` from `pos` on when scanning them never asks the
/// floating-point unit; `None` when it would ask.
pub open spec fn scan_settled(src: Seq<u8>, pos: int, line: nat) -> Option<Result<Seq<Tok>, Fault>>
    decreases src.len() - pos,
{
    if pos < 0 || pos >= src.len() {
        Some(Ok(seq![eof_token(line)]))
    } else if asks_parse(src, pos) {
        None
    } else {
        match step(src, pos, line, silent()) {
            Step::Fail(f) => Some(Err(f)),
            Step::Skip(p, l) => if p <= pos || p > src.len() {
                Some(Err(Fault::UnknownToken(chr(src[pos]), line as i128)))
            } else {
                scan_settled(src, p, l)
            },
            Step::Emit(t, p, l) => if p <= pos || p > src.len() {
                Some(Err(Fault::UnknownToken(chr(src[pos]), line as i128)))
            } else {
                match scan_settled(src, p, l) {
                    None => None,
                    Some(rest) => Some(after(seq![t], rest)),
                }
            },
        }
    }
}

/// The tokens of a whole source, ending with the end-of-input token; or the
/// first lexical error.
pub open spec fn scan(src: Seq<u8>, m: spec_fn(Query) -> Answer) -> Result<Seq<Tok>, Fault> {
    scan_from(src, 0, 1, m)
}

/// The message of an error about what follows a floating-point literal.
pub open spec fn float_follow_message() -> Seq<char> {
    "valid tokens : '=' | '!' | '*' | '+' | '-' | '/' | '>' | '<' | ' ' | '\\t' | '\\r' | '\\n' | ';' | ')' | '(' | '%' "@
}

/// The message of an error about what follows an integer literal.
pub open spec fn integer_follow_message() -> Seq<char> {
    "valid token : '=' | '!' | '*' | '+' | '-' | '/' | '>' | '<' | ' ' | '\\t' | '\\r' | '\\n' | ';' | '.' | ')' | '(' | '%' "@
}

/// The models of a sequence of tokens.
pub open spec fn toks(v: Seq<Token>) -> Seq<Tok> {
    v.map_values(|t: Token| t@)
}

/// Prepends the tokens already produced to what the rest of a scan gives.
pub open spec fn after(done: Seq<Tok>, rest: Result<Seq<Tok>, Fault>) -> Result<Seq<Tok>, Fault> {
    match rest {
        Ok(ts) => Ok(done + ts),
        Err(f) => Err(f),
    }
}

/// Turns source bytes into tokens.
pub struct Scanner<'a> {
    source_as_bytes: &'a [u8],
    tokens: Vec<Token>,
    start: usize,
    current: usize,
    line: usize,
}

impl<'a> Scanner<'a> {
    /// The source being scanned.
    pub closed spec fn source(&self) -> Seq<u8> {
        self.source_as_bytes@
    }

    /// Nothing has been scanned yet.
    pub closed spec fn fresh(&self) -> bool {
        self.tokens@.len() == 0 && self.start == 0 && self.current == 0 && self.line == 1
    }

    closed spec fn inv(&self) -> bool {
        &&& self.current <= self.source_as_bytes@.len()
        &&& self.source_as_bytes@.len() < usize::MAX
        &&& 1 <= self.line <= self.current + 1
    }

    pub fn new(content_as_bytes: &'a [u8]) -> (r: Self)
        ensures
            r.source() == content_as_bytes@,
            r.fresh(),
    {
        Scanner { source_as_bytes: content_as_bytes, tokens: Vec::new(), start: 0, current: 0, line: 1 }
    }

    fn char_at(&self, i: usize) -> (c: char)
        requires
            i < self.source_as_bytes@.len(),
        ensures
            c == chr(self.source_as_bytes@[i as int]),
    {
        self.source_as_bytes[i] as char
    }

    /// The text of `source[from..to]`.
    fn text(&self, from: usize, to: usize) -> (r: String)
        requires
            from <= to <= self.source_as_bytes@.len(),
        ensures
            r@ == text_of(self.source_as_bytes@.subrange(from as int, to as int)),
    {
        let ghost src = self.source_as_bytes@;
        let mut s = String::new();
        let mut k = from;
        while k < to
            invariant
                from <= k <= to <= src.len(),
                src == self.source_as_bytes@,
                s@ == text_of(src.subrange(from as int, k as int)),
            decreases to - k,
        {
            let c = self.char_at(k);
            push_char(&mut s, c);
            k = k + 1;
            assert(text_of(src.subrange(from as int, k as int)) =~= text_of(
                src.subrange(from as int, (k - 1) as int),
            ).push(c));
        }
        s
    }

    /// Adds the token spanning `start..current`.
    fn add_token_to_scanner(&mut self, token_type: TokenType, literal_value: Option<LiteralValue>)
        requires
            old(self).start <= old(self).current <= old(self).source_as_bytes@.len(),
        ensures
            final(self).source_as_bytes == old(self).source_as_bytes,
            final(self).start == old(self).start,
            final(self).current == old(self).current,
            final(self).line == old(self).line,
            toks(final(self).tokens@) == toks(old(self).tokens@).push(
                Tok {
                    kind: token_type,
                    lexeme: text_of(
                        old(self).source_as_bytes@.subrange(
                            old(self).start as int,
                            old(self).current as int,
                        ),
                    ),
                    literal: crate::token::opt_val(literal_value),
                    line: old(self).line as nat,
                },
            ),
    {
        let text = self.text(self.start, self.current);
        let t = Token {
            token_type,
            lexeme: text,
            literal: literal_value,
            line_number: self.line,
        };
        self.tokens.push(t);
        assert(toks(self.tokens@) =~= toks(old(self).tokens@).push(t@));
    }

    fn add_token(&mut self, token_type: TokenType)
        requires
            old(self).start <= old(self).current <= old(self).source_as_bytes@.len(),
        ensures
            final(self).source_as_bytes == old(self).source_as_bytes,
            final(self).start == old(self).start,
            final(self).current == old(self).current,
            final(self).line == old(self).line,
            toks(final(self).tokens@) == toks(old(self).tokens@).push(
                Tok {
                    kind: token_type,
                    lexeme: text_of(
                        old(self).source_as_bytes@.subrange(
                            old(self).start as int,
                            old(self).current as int,
                        ),
                    ),
                    literal: None,
                    line: old(self).line as nat,
                },
            ),
    {
        self.add_token_to_scanner(token_type, None);
    }

    /// Consumes the next byte when it is `expected`.
    fn match_double(&mut self, expected: char) -> (r: bool)
        requires
            old(self).current <= old(self).source_as_bytes@.len(),
        ensures
            final(self).source_as_bytes == old(self).source_as_bytes,
            final(self).start == old(self).start,
            final(self).line == old(self).line,
            final(self).tokens == old(self).tokens,
            r == (old(self).current < old(self).source_as_bytes@.len() && chr(
                old(self).source_as_bytes@[old(self).current as int],
            ) == expected),
            final(self).current == old(self).current + if r {
                1int
            } else {
                0int
            },
    {
        if self.current >= self.source_as_bytes.len() {
            false
        } else if self.char_at(self.current) != expected {
            false
        } else {
            self.current = self.current + 1;
            true
        }
    }

    /// What a step from `a` to `b` did: emit, skip, or fail with `r`'s error.
    closed spec fn did(a: Scanner<'a>, b: Scanner<'a>, st: Step, r: Result<(), Error>) -> bool {
        &&& b.source_as_bytes == a.source_as_bytes
        &&& match st {
            Step::Emit(t, p, l) => {
                &&& r is Ok
                &&& toks(b.tokens@) == toks(a.tokens@).push(t)
                &&& b.current == p
                &&& b.line == l
            },
            Step::Skip(p, l) => {
                &&& r is Ok
                &&& toks(b.tokens@) == toks(a.tokens@)
                &&& b.current == p
                &&& b.line == l
            },
            Step::Fail(f) => {
                &&& r matches Err(e) && e@ == f
                &&& toks(b.tokens@) == toks(a.tokens@)
            },
        }
    }

    /// Scans a string literal whose opening quote was just consumed.
    fn string(&mut self) -> (r: Result<(), Error>)
        requires
            old(self).inv(),
            old(self).current == old(self).start + 1,
            chr(old(self).source_as_bytes@[old(self).start as int]) == '"',
        ensures
            r is Err ==> final(self).tokens@ == old(self).tokens@,
            final(self).source_as_bytes == old(self).source_as_bytes,
            Self::did(
                *old(self),
                *final(self),
                string_step(old(self).source_as_bytes@, old(self).start as int, old(self).line as nat),
                r,
            ),
            r is Ok ==> final(self).inv() && final(self).current > old(self).current,
    {
        let ghost src = self.source_as_bytes@;
        let first_line = self.line;
        let len = self.source_as_bytes.len();
        while self.current < len && self.char_at(self.current) != '"'
            invariant
                self.source_as_bytes == old(self).source_as_bytes,
                self.source_as_bytes@ == src,
                len == src.len(),
                old(self).start < self.current <= len,
                self.start == old(self).start,
                self.tokens == old(self).tokens,
                src.len() < usize::MAX,
                1 <= self.line <= self.current + 1,
                quote_end(src, self.current as int) == quote_end(src, self.start + 1),
                self.line == first_line + newlines(
                    src.subrange(self.start + 1, self.current as int),
                ),
            decreases len - self.current,
        {
            assert(src.subrange(self.start + 1, self.current + 1).drop_last() =~= src.subrange(
                self.start + 1,
                self.current as int,
            ));
            if self.char_at(self.current) == '\n' {
                self.line = self.line + 1;
            }
            self.current = self.current + 1;
        }
        assert(quote_end(src, self.current as int) == self.current as int);
        if self.current >= len {
            Err(Error::UnterminatedStringError(first_line as i128))
        } else {
            self.current = self.current + 1;
            let value = self.text(self.start + 1, self.current - 1);
            self.add_token_to_scanner(TokenType::STRING, Some(LiteralValue::StringValue(value)));
            Ok(())
        }
    }

    /// Scans an identifier or reserved word whose first letter was just consumed.
    fn identifier(&mut self) -> (r: Result<(), Error>)
        requires
            old(self).inv(),
            old(self).current == old(self).start + 1,
            alpha(chr(old(self).source_as_bytes@[old(self).start as int])),
        ensures
            r is Err ==> final(self).tokens@ == old(self).tokens@,
            final(self).source_as_bytes == old(self).source_as_bytes,
            Self::did(
                *old(self),
                *final(self),
                word_step(old(self).source_as_bytes@, old(self).start as int, old(self).line as nat),
                r,
            ),
            r is Ok ==> final(self).inv() && final(self).current > old(self).current - 1,
    {
        let ghost src = self.source_as_bytes@;
        let len = self.source_as_bytes.len();
        while self.current < len && is_valid_literal(self.char_at(self.current))
            invariant
                self.source_as_bytes == old(self).source_as_bytes,
                self.source_as_bytes@ == src,
                len == src.len(),
                old(self).start < self.current <= len,
                self.start == old(self).start,
                self.tokens == old(self).tokens,
                self.line == old(self).line,
                word_end(src, self.current as int) == word_end(src, self.start as int),
            decreases len - self.current,
        {
            self.current = self.current + 1;
        }
        assert(word_end(src, self.current as int) == self.current as int);
        let identifier = self.text(self.start, self.current);
        match keyword_of(&identifier) {
            Some(k) => self.add_token(k),
            None => self.add_token_to_scanner(
                TokenType::IDENTIFIER,
                Some(LiteralValue::IdentifierValue(identifier)),
            ),
        }
        Ok(())
    }

    /// Scans a number literal whose first digit was just consumed.
    fn number<F: Fn(FloatQuery) -> FloatAnswer>(&mut self, unit: &F) -> (r: Result<(), Error>)
        requires
            old(self).inv(),
            old(self).current == old(self).start + 1,
            digit(chr(old(self).source_as_bytes@[old(self).start as int])),
            ready(*unit),
        ensures
            r is Err ==> final(self).tokens@ == old(self).tokens@,
            final(self).source_as_bytes == old(self).source_as_bytes,
            forall|m: spec_fn(Query) -> Answer|
                follows(*unit, m) ==> Self::did(
                    *old(self),
                    *final(self),
                    number_step(
                        old(self).source_as_bytes@,
                        old(self).start as int,
                        old(self).line as nat,
                        m,
                    ),
                    r,
                ),
            r is Ok ==> final(self).inv() && final(self).current > old(self).current - 1,
            !asks_parse(old(self).source_as_bytes@, old(self).start as int) ==> Self::did(
                *old(self),
                *final(self),
                number_step(
                    old(self).source_as_bytes@,
                    old(self).start as int,
                    old(self).line as nat,
                    silent(),
                ),
                r,
            ),
    {
        let ghost src = self.source_as_bytes@;
        let len = self.source_as_bytes.len();
        let start = self.start;
        while self.current < len && is_digit(self.char_at(self.current))
            invariant
                self.source_as_bytes == old(self).source_as_bytes,
                self.source_as_bytes@ == src,
                len == src.len(),
                start == self.start == old(self).start,
                start < self.current <= len,
                self.tokens == old(self).tokens,
                self.line == old(self).line,
                digits_end(src, self.current as int) == digits_end(src, start as int),
                forall|i: int| start <= i < self.current ==> digit(chr(#[trigger] src[i])),
            decreases len - self.current,
        {
            self.current = self.current + 1;
        }
        assert(digits_end(src, self.current as int) == self.current as int);
        let q = self.current;
        if q + 1 < len && self.char_at(q) == '.' && is_digit(self.char_at(q + 1)) {
            self.current = q + 1;
            while self.current < len && is_digit(self.char_at(self.current))
                invariant
                    self.source_as_bytes == old(self).source_as_bytes,
                    self.source_as_bytes@ == src,
                    len == src.len(),
                    start == self.start == old(self).start,
                    q + 1 <= self.current <= len,
                    self.tokens == old(self).tokens,
                    self.line == old(self).line,
                    digits_end(src, self.current as int) == digits_end(src, q + 1),
                decreases len - self.current,
            {
                self.current = self.current + 1;
            }
            assert(digits_end(src, self.current as int) == self.current as int);
            if self.current < len && !ends_float_byte(self.source_as_bytes[self.current]) {
                return Err(Error::ExpectedAToken(bad_token_at(self.line), float_follow_text()));
            }
            let t = self.text(start, self.current);
            let mut msg = String::from_str("cannot parse ");
            msg.append(t.as_str());
            msg.append(" as Float");
            match ask(unit, FloatQuery::Parse(t)) {
                FloatAnswer::Bits(b) => {
                    self.add_token_to_scanner(TokenType::NUMBER, Some(LiteralValue::FValue(b)));
                    Ok(())
                },
                _ => Err(Error::ParsingError(msg, self.line as i128)),
            }
        } else {
            if q < len && !ends_integer_byte(self.source_as_bytes[q]) {
                return Err(Error::ExpectedAToken(bad_token_at(self.line), integer_follow_text()));
            }
            let ten = BigInt::from_u64(10);
            let mut acc = BigInt::from_u64(0);
            let mut k = start;
            while k < q
                invariant
                    self.source_as_bytes == old(self).source_as_bytes,
                    self.source_as_bytes@ == src,
                    len == src.len(),
                    start == self.start == old(self).start,
                    start <= k <= q == self.current <= len,
                    self.tokens == old(self).tokens,
                    self.line == old(self).line,
                    forall|i: int| start <= i < q ==> digit(chr(#[trigger] src[i])),
                    ten@ == 10,
                    acc@ == digits_value(src.subrange(start as int, k as int)),
                decreases q - k,
            {
                assert(digit(chr(src[k as int])));
                let d = BigInt::from_u64((self.source_as_bytes[k] - 48) as u64);
                assert(src.subrange(start as int, k + 1).drop_last() =~= src.subrange(
                    start as int,
                    k as int,
                ));
                acc = acc.mul(&ten).add(&d);
                k = k + 1;
            }
            self.add_token_to_scanner(TokenType::NUMBER, Some(LiteralValue::IntValue(acc)));
            Ok(())
        }
    }

    /// Scans one token, or skips whitespace or a comment, at `current`.
    fn scan_token<F: Fn(FloatQuery) -> FloatAnswer>(&mut self, unit: &F) -> (r: Result<(), Error>)
        requires
            old(self).inv(),
            old(self).start == old(self).current,
            old(self).current < old(self).source_as_bytes@.len(),
            ready(*unit),
        ensures
            r is Err ==> final(self).tokens@ == old(self).tokens@,
            final(self).source_as_bytes == old(self).source_as_bytes,
            forall|m: spec_fn(Query) -> Answer|
                follows(*unit, m) ==> Self::did(
                    *old(self),
                    *final(self),
                    step(old(self).source_as_bytes@, old(self).current as int, old(self).line as nat, m),
                    r,
                ),
            r is Ok ==> final(self).inv() && final(self).current > old(self).current,
            !asks_parse(old(self).source_as_bytes@, old(self).current as int) ==> Self::did(
                *old(self),
                *final(self),
                step(old(self).source_as_bytes@, old(self).current as int, old(self).line as nat, silent()),
                r,
            ),
    {
        let ghost src = self.source_as_bytes@;
        let c = self.char_at(self.current);
        self.current = self.current + 1;
        if c == '(' {
            self.add_token(TokenType::LEFT_PAREN);
        } else if c == ')' {
            self.add_token(TokenType::RIGHT_PAREN);
        } else if c == '{' {
            self.add_token(TokenType::LEFT_BRACE);
        } else if c == '}' {
            self.add_token(TokenType::RIGHT_BRACE);
        } else if c == ',' {
            self.add_token(TokenType::COMMA);
        } else if c == '.' {
            self.add_token(TokenType::DOT);
        } else if c == '-' {
            self.add_token(TokenType::MINUS);
        } else if c == '+' {
            self.add_token(TokenType::PLUS);
        } else if c == ';' {
            self.add_token(TokenType::SEMICOLON);
        } else if c == '*' {
            self.add_token(TokenType::STAR);
        } else if c == '%' {
            self.add_token(TokenType::MODULO);
        } else if c == '!' {
            if self.match_double('=') {
                self.add_token(TokenType::BANG_EQUAL);
            } else {
                self.add_token(TokenType::BANG);
            }
        } else if c == '=' {
            if self.match_double('=') {
                self.add_token(TokenType::EQUAL_EQUAL);
            } else {
                self.add_token(TokenType::EQUAL);
            }
        } else if c == '<' {
            if self.match_double('=') {
                self.add_token(TokenType::LESS_EQUAL);
            } else {
                self.add_token(TokenType::LESS);
            }
        } else if c == '>' {
            if self.match_double('=') {
                self.add_token(TokenType::GREATER_EQUAL);
            } else {
                self.add_token(TokenType::GREATER);
            }
        } else if c == '/' {
            if self.match_double('/') {
                let len = self.source_as_bytes.len();
                while self.current < len && self.char_at(self.current) != '\n'
                    invariant
                        self.source_as_bytes == old(self).source_as_bytes,
                        self.source_as_bytes@ == src,
                        len == src.len(),
                        old(self).current + 2 <= self.current <= len,
                        self.tokens == old(self).tokens,
                        self.line == old(self).line,
                        line_end(src, self.current as int) == line_end(src, old(self).current + 2),
                    decreases len - self.current,
                {
                    self.current = self.current + 1;
                }
                assert(line_end(src, self.current as int) == self.current as int);
            } else {
                self.add_token(TokenType::SLASH);
            }
        } else if c == ' ' || c == '\t' || c == '\r' {
        } else if c == '\n' {
            self.line = self.line + 1;
        } else if c == '"' {
            return self.string();
        } else if is_digit(c) {
            return self.number(unit);
        } else if is_alpha(c) {
            return self.identifier();
        } else {
            return Err(Error::UnknownToken(c, self.line as i128));
        }
        Ok(())
    }

    /// Scans the whole source: its tokens, ending with the end-of-input token,
    /// or the first lexical error.
    pub fn scan_tokens<F: Fn(FloatQuery) -> FloatAnswer>(&mut self, unit: &F) -> (r: Result<
        Vec<Token>,
        Error,
    >)
        requires
            old(self).fresh(),
            old(self).source().len() < usize::MAX,
            ready(*unit),
        ensures
            forall|m: spec_fn(Query) -> Answer|
                follows(*unit, m) ==> scanned(r) == scan(old(self).source(), m),
            scan_settled(old(self).source(), 0, 1) matches Some(s) ==> scanned(r) == s,
            r matches Ok(v) ==> v@.len() > 0 && v@.last().token_type == TokenType::EOF,
    {
        let ghost src = self.source_as_bytes@;
        let len = self.source_as_bytes.len();
        while self.current < len
            invariant
                self.inv(),
                ready(*unit),
                self.source_as_bytes@ == src,
                src == old(self).source_as_bytes@,
                len == src.len(),
                forall|m: spec_fn(Query) -> Answer|
                    follows(*unit, m) ==> scan(src, m) == after(
                        toks(self.tokens@),
                        scan_from(src, self.current as int, self.line as nat, m),
                    ),
                scan_settled(src, 0, 1) is Some ==> scan_settled(src, 0, 1) == match scan_settled(
                    src,
                    self.current as int,
                    self.line as nat,
                ) {
                    None => None,
                    Some(rest) => Some(after(toks(self.tokens@), rest)),
                },
            decreases len - self.current,
        {
            self.start = self.current;
            let ghost before = *self;
            let r = self.scan_token(unit);
            match r {
                Ok(()) => {},
                Err(e) => {
                    assert forall|m: spec_fn(Query) -> Answer| follows(*unit, m) implies scan(src, m)
                        == Err::<Seq<Tok>, Fault>(e@) by {
                        assert(Self::did(before, *self, step(src, before.current as int, before.line as nat, m), r));
                    }
                    assert(!asks_parse(src, before.current as int) ==> Self::did(before, *self, step(src, before.current as int, before.line as nat, silent()), r));
                    return Err(e);
                },
            }
            assert(!asks_parse(src, before.current as int) ==> Self::did(before, *self, step(src, before.current as int, before.line as nat, silent()), r));
            proof {
                if let Step::Emit(t, p, l) = step(src, before.current as int, before.line as nat, silent()) {
                    if let Some(Ok(ts)) = scan_settled(src, p, l) {
                        assert(toks(before.tokens@) + (seq![t] + ts) =~= toks(self.tokens@) + ts);
                    }
                }
            }
            assert forall|m: spec_fn(Query) -> Answer| follows(*unit, m) implies scan(src, m)
                == after(toks(self.tokens@), scan_from(src, self.current as int, self.line as nat, m)) by {
                assert(Self::did(before, *self, step(src, before.current as int, before.line as nat, m), r));
                if let Step::Emit(t, p, l) = step(src, before.current as int, before.line as nat, m) {
                    if let Ok(ts) = scan_from(src, p, l, m) {
                        assert(toks(before.tokens@) + (seq![t] + ts) =~= toks(self.tokens@) + ts);
                    }
                }
            }
        }
        let eof = Token {
            token_type: TokenType::EOF,
            lexeme: String::new(),
            literal: None,
            line_number: self.line,
        };
        let ghost prior = self.tokens@;
        self.tokens.push(eof);
        let mut tokens: Vec<Token> = Vec::new();
        core::mem::swap(&mut tokens, &mut self.tokens);
        assert(toks(tokens@) =~= toks(prior) + seq![eof_token(self.line as nat)]);
        assert(src == old(self).source());
        Ok(tokens)
    }
}

/// The model of a scan's result.
pub open spec fn scanned(r: Result<Vec<Token>, Error>) -> Result<Seq<Tok>, Fault> {
    match r {
        Ok(v) => Ok(toks(v@)),
        Err(e) => Err(e@),
    }
}

/// Whether a byte may follow a floating-point literal.
fn ends_float_byte(b: u8) -> (r: bool)
    ensures
        r == ends_float(b),
{
    let c = b as char;
    c == '=' || c == '!' || c == '*' || c == '+' || c == '-' || c == '/' || c == '>' || c == '<'
        || c == ';' || c == ')' || c == '(' || c == '%' || b == 32 || b == 9 || b == 13 || b == 10
}

/// Whether a byte may follow an integer literal.
fn ends_integer_byte(b: u8) -> (r: bool)
    ensures
        r == ends_integer(b),
{
    ends_float_byte(b) || b == 46
}

fn bad_token_at(line: usize) -> (t: Token)
    ensures
        t@ == bad_token(line as nat),
{
    Token { token_type: TokenType::BAD_TOKEN, lexeme: String::new(), literal: None, line_number: line }
}

fn float_follow_text() -> (r: String)
    ensures
        r@ == float_follow_message(),
{
    String::from_str("valid tokens : '=' | '!' | '*' | '+' | '-' | '/' | '>' | '<' | ' ' | '\\t' | '\\r' | '\\n' | ';' | ')' | '(' | '%' ")
}

fn integer_follow_text() -> (r: String)
    ensures
        r@ == integer_follow_message(),
{
    String::from_str("valid token : '=' | '!' | '*' | '+' | '-' | '/' | '>' | '<' | ' ' | '\\t' | '\\r' | '\\n' | ';' | '.' | ')' | '(' | '%' ")
}

/// Whether `t` spells the word `w`.
fn spells(t: &String, w: &str) -> (r: bool)
    ensures
        r == (t@ == w@),
{
    *t == String::from_str(w)
}

/// The reserved word that `t` spells, if any.
pub fn keyword_of(t: &String) -> (r: Option<TokenType>)
    ensures
        r == keyword(t@),
{
    if spells(t, "and") {
        Some(TokenType::AND)
    } else if spells(t, "class") {
        Some(TokenType::CLASS)
    } else if spells(t, "else") {
        Some(TokenType::ELSE)
    } else if spells(t, "false") {
        Some(TokenType::FALSE)
    } else if spells(t, "for") {
        Some(TokenType::FOR)
    } else if spells(t, "fun") {
        Some(TokenType::FUN)
    } else if spells(t, "if") {
        Some(TokenType::IF)
    } else if spells(t, "nil") {
        Some(TokenType::NIL)
    } else if spells(t, "or") {
        Some(TokenType::OR)
    } else if spells(t, "print") {
        Some(TokenType::PRINT)
    } else if spells(t, "return") {
        Some(TokenType::RETURN)
    } else if spells(t, "super") {
        Some(TokenType::SUPER)
    } else if spells(t, "this") {
        Some(TokenType::THIS)
    } else if spells(t, "true") {
        Some(TokenType::TRUE)
    } else if spells(t, "var") {
        Some(TokenType::VAR)
    } else if spells(t, "while") {
        Some(TokenType::WHILE)
    } else {
        None
    }
}

} // verus!