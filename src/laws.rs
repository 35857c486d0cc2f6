//! Laws of the language, proved over the models of scanning and evaluation.
use crate::errors::Fault;
use crate::expressions::{binary, eval, float_result, repeat, settled, unary, Ex};
use crate::float::{is_zero_bits, Answer, ArithOp, Num, Query};
use crate::parser::{
    at_op, check, level_rest, parse_declaration, parse_from, parse_level, parse_primary,
    parse_program, parse_unary, well_formed,
};
use crate::statements::Stmt;
use crate::scanner::{
    bad_token, chr, digit, digits_end, ends_float, ends_integer, eof_token, float_follow_message, integer_follow_message, line_end,
    quote_end, scan_from, step, text_of, word_end, Step,
};
use crate::token::{Tok, TokenType, Val};
use vstd::prelude::*;

verus! {

/// On operands whose values are the integers `x` and `y`, `+`, `-` and `*`
/// give the exact integer, of any size, without asking the floating-point
/// unit; `/` never gives an integer, and by a non-zero divisor gives the
/// quotient that the unit computes, as a floating-point value.
pub proof fn law_integer_arithmetic(l: Ex, x: int, op: Tok, r: Ex, y: int, m: spec_fn(Query) -> Answer)
    requires
        eval(l, m) == Ok::<Val, Fault>(Val::Int(x)),
        eval(r, m) == Ok::<Val, Fault>(Val::Int(y)),
    ensures
        op.kind == TokenType::PLUS ==> eval(Ex::Binary(Box::new(l), op, Box::new(r)), m) == Ok::<
            Val,
            Fault,
        >(Val::Int(x + y)),
        op.kind == TokenType::MINUS ==> eval(Ex::Binary(Box::new(l), op, Box::new(r)), m) == Ok::<
            Val,
            Fault,
        >(Val::Int(x - y)),
        op.kind == TokenType::STAR ==> eval(Ex::Binary(Box::new(l), op, Box::new(r)), m) == Ok::<
            Val,
            Fault,
        >(Val::Int(x * y)),
        op.kind == TokenType::SLASH && y != 0 ==> eval(
            Ex::Binary(Box::new(l), op, Box::new(r)),
            m,
        ) == float_result(m(Query::Arith(ArithOp::Div, Num::Int(x), Num::Int(y))), op),
        op.kind == TokenType::SLASH ==> !(eval(Ex::Binary(Box::new(l), op, Box::new(r)), m) matches Ok(
            Val::Int(_),
        )),
{
}

/// The same for operands whose values are settled without the unit: then
/// `+`, `-` and `*` are settled too, whatever the unit does.
pub proof fn law_integer_arithmetic_settled(l: Ex, x: int, op: Tok, r: Ex, y: int)
    requires
        settled(l) == Some(Ok::<Val, Fault>(Val::Int(x))),
        settled(r) == Some(Ok::<Val, Fault>(Val::Int(y))),
    ensures
        op.kind == TokenType::PLUS ==> settled(Ex::Binary(Box::new(l), op, Box::new(r))) == Some(
            Ok::<Val, Fault>(Val::Int(x + y)),
        ),
        op.kind == TokenType::MINUS ==> settled(Ex::Binary(Box::new(l), op, Box::new(r))) == Some(
            Ok::<Val, Fault>(Val::Int(x - y)),
        ),
        op.kind == TokenType::STAR ==> settled(Ex::Binary(Box::new(l), op, Box::new(r))) == Some(
            Ok::<Val, Fault>(Val::Int(x * y)),
        ),
{
}

/// Unary `-` negates every integer, of any size.
pub proof fn law_negation(op: Tok, x: int)
    requires
        op.kind == TokenType::MINUS,
    ensures
        unary(op, Val::Int(x)) == Ok::<Val, Fault>(Val::Int(-x)),
{
}

/// Division by zero fails with a zero-division error for every numeric
/// dividend, whether the zero divisor is an integer or a floating-point zero of
/// either sign, and the unit is never asked.
pub proof fn law_zero_division(l: Ex, dividend: Val, op: Tok, r: Ex, divisor: Val, m: spec_fn(Query) -> Answer)
    requires
        op.kind == TokenType::SLASH,
        dividend is Int || dividend is Float,
        divisor == Val::Int(0) || (divisor matches Val::Float(b) && is_zero_bits(b)),
        eval(l, m) == Ok::<Val, Fault>(dividend),
        eval(r, m) == Ok::<Val, Fault>(divisor),
    ensures
        eval(Ex::Binary(Box::new(l), op, Box::new(r)), m) == Err::<Val, Fault>(
            Fault::ZeroDivision(op),
        ),
        settled(l) == Some(Ok::<Val, Fault>(dividend)) && settled(r) == Some(
            Ok::<Val, Fault>(divisor),
        ) ==> settled(Ex::Binary(Box::new(l), op, Box::new(r))) == Some(
            Err::<Val, Fault>(Fault::ZeroDivision(op)),
        ),
{
}

/// Repeating a text by an integer gives the same in either operand order, and
/// a count that is not positive gives the empty text; the unit is never asked.
pub proof fn law_repetition(l: Ex, s: Seq<char>, op: Tok, r: Ex, n: int)
    requires
        op.kind == TokenType::STAR,
        settled(l) == Some(Ok::<Val, Fault>(Val::Str(s))),
        settled(r) == Some(Ok::<Val, Fault>(Val::Int(n))),
    ensures
        settled(Ex::Binary(Box::new(l), op, Box::new(r))) == settled(
            Ex::Binary(Box::new(r), op, Box::new(l)),
        ),
        settled(Ex::Binary(Box::new(l), op, Box::new(r))) == Some(
            Ok::<Val, Fault>(Val::Str(repeat(s, n))),
        ),
        n <= 0 ==> repeat(s, n) == Seq::<char>::empty(),
        n > 0 ==> repeat(s, n).len() == s.len() * n,
{
    if n > 0 {
        lemma_repeat_len(s, n);
    }
}

proof fn lemma_repeat_len(s: Seq<char>, n: int)
    requires
        n >= 0,
    ensures
        repeat(s, n).len() == s.len() * n,
    decreases n,
{
    if n > 0 {
        lemma_repeat_len(s, n - 1);
        assert(s.len() * n == s.len() * (n - 1) + s.len()) by (nonlinear_arith);
    }
}

/// Repetition in either order, stated over the evaluation with any model of
/// the unit.
pub proof fn law_repetition_eval(s: Seq<char>, op: Tok, n: int, m: spec_fn(Query) -> Answer)
    requires
        op.kind == TokenType::STAR,
    ensures
        binary(Val::Str(s), op, Val::Int(n), m) == binary(Val::Int(n), op, Val::Str(s), m),
        binary(Val::Str(s), op, Val::Int(n), m) == Ok::<Val, Fault>(Val::Str(repeat(s, n))),
{
}

proof fn lemma_no_quote(src: Seq<u8>, i: int)
    requires
        0 <= i <= src.len(),
        forall|j: int| i <= j < src.len() ==> chr(#[trigger] src[j]) != '"',
    ensures
        quote_end(src, i) == src.len(),
    decreases src.len() - i,
{
    if i < src.len() {
        lemma_no_quote(src, i + 1);
    }
}

/// A string literal that is never closed fails the scan with an
/// unterminated-string error that names the line on which it began.
pub proof fn law_unterminated_string(src: Seq<u8>, start: int, line: nat, m: spec_fn(Query) -> Answer)
    requires
        0 <= start < src.len(),
        chr(src[start]) == '"',
        forall|j: int| start < j < src.len() ==> chr(#[trigger] src[j]) != '"',
    ensures
        step(src, start, line, m) == Step::Fail(Fault::UnterminatedString(line as i128)),
        scan_from(src, start, line, m) == Err::<Seq<Tok>, Fault>(
            Fault::UnterminatedString(line as i128),
        ),
{
    lemma_no_quote(src, start + 1);
}

proof fn lemma_digit_run(src: Seq<u8>, i: int, q: int)
    requires
        0 <= i <= q <= src.len(),
        forall|j: int| i <= j < q ==> digit(chr(#[trigger] src[j])),
        q < src.len() ==> !digit(chr(src[q])),
    ensures
        digits_end(src, i) == q,
    decreases q - i,
{
    if i < q {
        lemma_digit_run(src, i + 1, q);
    }
}

/// An integer literal followed directly by a byte that may not follow it (a
/// letter, `_`, or any other byte that is no operator, whitespace, `;`, `.`
/// or parenthesis) fails the scan, at the literal, with an expected-a-token
/// error on the literal's line.
pub proof fn law_malformed_number(src: Seq<u8>, start: int, q: int, line: nat, m: spec_fn(Query) -> Answer)
    requires
        0 <= start < q < src.len(),
        forall|j: int| start <= j < q ==> digit(chr(#[trigger] src[j])),
        !digit(chr(src[q])),
        !ends_integer(src[q]),
    ensures
        step(src, start, line, m) == Step::Fail(
            Fault::ExpectedAToken(bad_token(line), integer_follow_message()),
        ),
        scan_from(src, start, line, m) == Err::<Seq<Tok>, Fault>(
            Fault::ExpectedAToken(bad_token(line), integer_follow_message()),
        ),
{
    assert(digit(chr(src[start])));
    lemma_digit_run(src, start, q);
}

/// A decimal literal `digits.digits` followed directly by a byte that may not
/// follow it fails the scan with an expected-a-token error on its line, before
/// the floating-point unit is asked anything.
pub proof fn law_malformed_decimal(
    src: Seq<u8>,
    start: int,
    dot: int,
    end: int,
    line: nat,
    m: spec_fn(Query) -> Answer,
)
    requires
        0 <= start < dot,
        dot + 1 < end < src.len(),
        forall|j: int| start <= j < dot ==> digit(chr(#[trigger] src[j])),
        chr(src[dot]) == '.',
        forall|j: int| dot < j < end ==> digit(chr(#[trigger] src[j])),
        !digit(chr(src[end])),
        !ends_float(src[end]),
    ensures
        step(src, start, line, m) == Step::Fail(
            Fault::ExpectedAToken(bad_token(line), float_follow_message()),
        ),
        scan_from(src, start, line, m) == Err::<Seq<Tok>, Fault>(
            Fault::ExpectedAToken(bad_token(line), float_follow_message()),
        ),
{
    assert(digit(chr(src[start])));
    assert(!digit(chr(src[dot])));
    lemma_digit_run(src, start, dot);
    assert(digit(chr(src[dot + 1])));
    lemma_digit_run(src, dot + 1, end);
}

/// Every successful scan ends with the end-of-input token, so that its tokens
/// are always a sequence the parser accepts.
pub proof fn law_scan_ends_with_eof(src: Seq<u8>, pos: int, line: nat, m: spec_fn(Query) -> Answer)
    ensures
        scan_from(src, pos, line, m) matches Ok(ts) ==> ts.len() > 0 && ts.last().kind
            == TokenType::EOF,
    decreases src.len() - pos,
{
    if 0 <= pos < src.len() {
        match step(src, pos, line, m) {
            Step::Skip(p, l) => {
                if pos < p <= src.len() {
                    law_scan_ends_with_eof(src, p, l, m);
                }
            },
            Step::Emit(t, p, l) => {
                if pos < p <= src.len() {
                    law_scan_ends_with_eof(src, p, l, m);
                    if let Ok(ts) = scan_from(src, p, l, m) {
                        assert((seq![t] + ts).last() == ts.last());
                    }
                }
            },
            Step::Fail(_) => {},
        }
    }
}

proof fn lemma_run_ends(src: Seq<u8>, i: int)
    requires
        0 <= i <= src.len(),
    ensures
        i <= digits_end(src, i) <= src.len(),
        i <= word_end(src, i) <= src.len(),
        i <= line_end(src, i) <= src.len(),
        i <= quote_end(src, i) <= src.len(),
    decreases src.len() - i,
{
    if i < src.len() {
        lemma_run_ends(src, i + 1);
    }
}

/// Each step of the scanner that does not fail moves strictly forward and
/// stays within the source, so tokens come in source order and never overlap.
pub proof fn law_step_advances(src: Seq<u8>, pos: int, line: nat, m: spec_fn(Query) -> Answer)
    requires
        0 <= pos < src.len(),
    ensures
        step(src, pos, line, m) matches Step::Emit(_, p, _) ==> pos < p <= src.len(),
        step(src, pos, line, m) matches Step::Skip(p, _) ==> pos < p <= src.len(),
{
    lemma_run_ends(src, pos);
    lemma_run_ends(src, pos + 1);
    if pos + 2 <= src.len() {
        lemma_run_ends(src, pos + 2);
    }
    let q = digits_end(src, pos);
    if 0 <= q && q + 1 <= src.len() {
        lemma_run_ends(src, q + 1);
    }
}

/// A decimal literal `digits.digits` that is followed by the end of the
/// source or by a delimiter scans as one number token spanning all of it.
pub proof fn law_decimal_literal(
    src: Seq<u8>,
    start: int,
    dot: int,
    end: int,
    line: nat,
    m: spec_fn(Query) -> Answer,
)
    requires
        0 <= start < dot,
        dot + 1 < end <= src.len(),
        forall|j: int| start <= j < dot ==> digit(chr(#[trigger] src[j])),
        chr(src[dot]) == '.',
        forall|j: int| dot < j < end ==> digit(chr(#[trigger] src[j])),
        end < src.len() ==> ends_float(src[end]) && !digit(chr(src[end])),
        m(Query::Parse(text_of(src.subrange(start, end)))) is Bits,
    ensures
        step(src, start, line, m) == Step::Emit(
            Tok {
                kind: TokenType::NUMBER,
                lexeme: text_of(src.subrange(start, end)),
                literal: Some(
                    Val::Float(m(Query::Parse(text_of(src.subrange(start, end))))->Bits_0),
                ),
                line,
            },
            end,
            line,
        ),
{
    assert(digit(chr(src[start])));
    assert(!digit(chr(src[dot])));
    lemma_digit_run(src, start, dot);
    assert(digit(chr(src[dot + 1])));
    lemma_digit_run(src, dot + 1, end);
}

proof fn lemma_not_last(ts: Seq<Tok>, i: int)
    requires
        well_formed(ts),
        0 <= i < ts.len(),
        ts[i].kind != TokenType::EOF,
    ensures
        i + 1 < ts.len(),
{
    assert(ts.last() == ts[ts.len() - 1]);
}

/// Every successful parse of an expression consumes at least one token and
/// stops before the end of input.
pub proof fn law_parse_advances(ts: Seq<Tok>, i: int, n: nat)
    requires
        well_formed(ts),
        0 <= i < ts.len(),
        n <= 4,
    ensures
        parse_level(ts, i, n) matches Ok((_, j)) ==> i < j < ts.len(),
    decreases ts.len() - i, 7 - n, 0nat,
{
    if n == 4 {
        lemma_unary_advances(ts, i);
    } else {
        law_parse_advances(ts, i, n + 1);
        if let Ok((e, j)) = parse_level(ts, i, n + 1) {
            if i < j < ts.len() {
                lemma_rest_advances(ts, e, j, n);
            }
        }
    }
}

proof fn lemma_rest_advances(ts: Seq<Tok>, left: Ex, j: int, n: nat)
    requires
        well_formed(ts),
        0 <= j < ts.len(),
        n < 4,
    ensures
        level_rest(ts, left, j, n) matches Ok((_, k)) ==> j <= k < ts.len(),
    decreases ts.len() - j, 7 - n, 1nat,
{
    if at_op(ts, j, n) {
        lemma_not_last(ts, j);
        if let Ok((r, k)) = parse_level(ts, j + 1, n + 1) {
            if j + 1 < k < ts.len() {
                lemma_rest_advances(ts, Ex::Binary(Box::new(left), ts[j], Box::new(r)), k, n);
            }
        }
    }
}

proof fn lemma_unary_advances(ts: Seq<Tok>, i: int)
    requires
        well_formed(ts),
        0 <= i < ts.len(),
    ensures
        parse_unary(ts, i) matches Ok((_, j)) ==> i < j < ts.len(),
    decreases ts.len() - i, 2nat, 0nat,
{
    if check(ts, i, TokenType::BANG) || check(ts, i, TokenType::MINUS) {
        lemma_not_last(ts, i);
        lemma_unary_advances(ts, i + 1);
    } else {
        lemma_primary_advances(ts, i);
    }
}

proof fn lemma_primary_advances(ts: Seq<Tok>, i: int)
    requires
        well_formed(ts),
        0 <= i < ts.len(),
    ensures
        parse_primary(ts, i) matches Ok((_, j)) ==> i < j < ts.len(),
    decreases ts.len() - i, 1nat, 0nat,
{
    if ts[i].kind != TokenType::EOF {
        lemma_not_last(ts, i);
        if check(ts, i, TokenType::LEFT_PAREN) {
            law_parse_advances(ts, i + 1, 0);
            if let Ok((_, j)) = parse_level(ts, i + 1, 0) {
                if check(ts, j, TokenType::RIGHT_PAREN) {
                    lemma_not_last(ts, j);
                }
            }
        }
    }
}

/// Scanning a statement `digits.digits;` gives exactly a number token, a `;`
/// and the end of input, and parsing those tokens gives one expression
/// statement holding the literal: the literal is never split on its dot.
pub proof fn law_decimal_statement(src: Seq<u8>, dot: int, m: spec_fn(Query) -> Answer)
    requires
        0 < dot,
        dot + 2 < src.len(),
        forall|j: int| 0 <= j < dot ==> digit(chr(#[trigger] src[j])),
        chr(src[dot]) == '.',
        forall|j: int| dot < j < src.len() - 1 ==> digit(chr(#[trigger] src[j])),
        chr(src[src.len() - 1]) == ';',
        m(Query::Parse(text_of(src.subrange(0, src.len() - 1)))) is Bits,
    ensures
        ({
            let end = src.len() - 1;
            let v = Val::Float(m(Query::Parse(text_of(src.subrange(0, end))))->Bits_0);
            let number = Tok {
                kind: TokenType::NUMBER,
                lexeme: text_of(src.subrange(0, end)),
                literal: Some(v),
                line: 1,
            };
            let semicolon = Tok {
                kind: TokenType::SEMICOLON,
                lexeme: text_of(src.subrange(end, end + 1)),
                literal: None,
                line: 1,
            };
            let ts = seq![number, semicolon, eof_token(1)];
            &&& scan_from(src, 0, 1, m) == Ok::<Seq<Tok>, Fault>(ts)
            &&& parse_program(ts) == Ok::<Seq<Stmt>, Fault>(seq![Stmt::Expression(Ex::Literal(v))])
        }),
{
    let end = src.len() - 1;
    let v = Val::Float(m(Query::Parse(text_of(src.subrange(0, end))))->Bits_0);
    let number = Tok {
        kind: TokenType::NUMBER,
        lexeme: text_of(src.subrange(0, end)),
        literal: Some(v),
        line: 1,
    };
    let semicolon = Tok {
        kind: TokenType::SEMICOLON,
        lexeme: text_of(src.subrange(end, end + 1)),
        literal: None,
        line: 1,
    };
    let eof = eof_token(1);
    law_decimal_literal(src, 0, dot, end, 1, m);
    assert(scan_from(src, src.len() as int, 1, m) == Ok::<Seq<Tok>, Fault>(seq![eof]));
    assert(step(src, end, 1, m) == Step::Emit(semicolon, end + 1, 1));
    assert(scan_from(src, end, 1, m) == Ok::<Seq<Tok>, Fault>(seq![semicolon] + seq![eof]));
    assert(seq![number] + (seq![semicolon] + seq![eof]) =~= seq![number, semicolon, eof]);
    let ts = seq![number, semicolon, eof];
    let lit = Ex::Literal(v);
    assert(parse_primary(ts, 0) == Ok::<(Ex, int), Fault>((lit, 1)));
    assert(parse_unary(ts, 0) == Ok::<(Ex, int), Fault>((lit, 1)));
    assert(parse_level(ts, 0, 4) == Ok::<(Ex, int), Fault>((lit, 1)));
    assert(level_rest(ts, lit, 1, 3) == Ok::<(Ex, int), Fault>((lit, 1)));
    assert(parse_level(ts, 0, 3) == Ok::<(Ex, int), Fault>((lit, 1)));
    assert(level_rest(ts, lit, 1, 2) == Ok::<(Ex, int), Fault>((lit, 1)));
    assert(parse_level(ts, 0, 2) == Ok::<(Ex, int), Fault>((lit, 1)));
    assert(level_rest(ts, lit, 1, 1) == Ok::<(Ex, int), Fault>((lit, 1)));
    assert(parse_level(ts, 0, 1) == Ok::<(Ex, int), Fault>((lit, 1)));
    assert(level_rest(ts, lit, 1, 0) == Ok::<(Ex, int), Fault>((lit, 1)));
    assert(parse_level(ts, 0, 0) == Ok::<(Ex, int), Fault>((lit, 1)));
    assert(parse_declaration(ts, 0) == Ok::<(Stmt, int), Fault>((Stmt::Expression(lit), 2)));
    assert(parse_from(ts, 2) == Ok::<Seq<Stmt>, Fault>(Seq::empty()));
    assert(seq![Stmt::Expression(lit)] + Seq::<Stmt>::empty() =~= seq![Stmt::Expression(lit)]);
}

} // verus!
