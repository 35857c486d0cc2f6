//! The errors of every stage, and their messages.
use crate::float::{follows, ready, silent, Answer, FloatAnswer, FloatQuery, Query};
use crate::text::{append_int, int_text, push_char};
use crate::token::{kind_name, render, LiteralValue, Tok, Token, Val};
use vstd::prelude::*;

verus! {

/// An error of scanning, parsing or evaluation.
#[derive(Debug)]
pub enum Error {
    UnknownToken(char, i128),
    UnterminatedStringError(i128),
    FloatParsingError(String, i128),
    IntegerParsingError(String, i128),
    InvalidToken(Token),
    ZeroDivisionError(Token),
    InvalidUnaryOperation(LiteralValue, Token),
    UnterminatedParenthesis(Token),
    InvalidBinaryOperation(LiteralValue, Token, LiteralValue),
    ExpectedAToken(Token, String),
    ParsingError(String, i128),
    UndefinedVariable(Token),
    NoFloatResult(Token),
}

/// The model of an error.
pub enum Fault {
    UnknownToken(char, i128),
    UnterminatedString(i128),
    FloatParsing(Seq<char>, i128),
    IntegerParsing(Seq<char>, i128),
    InvalidToken(Tok),
    ZeroDivision(Tok),
    InvalidUnary(Val, Tok),
    UnterminatedParenthesis(Tok),
    InvalidBinary(Val, Tok, Val),
    ExpectedAToken(Tok, Seq<char>),
    Parsing(Seq<char>, i128),
    UndefinedVariable(Tok),
    NoFloatResult(Tok),
}

impl View for Error {
    type V = Fault;

    open spec fn view(&self) -> Fault {
        match self {
            Error::UnknownToken(c, l) => Fault::UnknownToken(*c, *l),
            Error::UnterminatedStringError(l) => Fault::UnterminatedString(*l),
            Error::FloatParsingError(s, l) => Fault::FloatParsing(s@, *l),
            Error::IntegerParsingError(s, l) => Fault::IntegerParsing(s@, *l),
            Error::InvalidToken(t) => Fault::InvalidToken(t@),
            Error::ZeroDivisionError(t) => Fault::ZeroDivision(t@),
            Error::InvalidUnaryOperation(v, t) => Fault::InvalidUnary(v@, t@),
            Error::UnterminatedParenthesis(t) => Fault::UnterminatedParenthesis(t@),
            Error::InvalidBinaryOperation(l, t, r) => Fault::InvalidBinary(l@, t@, r@),
            Error::ExpectedAToken(t, s) => Fault::ExpectedAToken(t@, s@),
            Error::ParsingError(s, l) => Fault::Parsing(s@, *l),
            Error::UndefinedVariable(t) => Fault::UndefinedVariable(t@),
            Error::NoFloatResult(t) => Fault::NoFloatResult(t@),
        }
    }
}

/// The message of an error when writing it never asks the floating-point
/// unit, that is when it names no floating-point value; `None` otherwise.
pub open spec fn message_settled(f: Fault) -> Option<Seq<char>> {
    match f {
        Fault::InvalidUnary(v, _) => if v is Float {
            None
        } else {
            Some(message(f, silent()))
        },
        Fault::InvalidBinary(l, _, r) => if l is Float || r is Float {
            None
        } else {
            Some(message(f, silent()))
        },
        _ => Some(message(f, silent())),
    }
}

/// The line number of a token, as messages print it.
pub open spec fn line_text(t: Tok) -> Seq<char> {
    int_text(t.line as int)
}

/// The message of an error.
pub open spec fn message(f: Fault, m: spec_fn(Query) -> Answer) -> Seq<char> {
    match f {
        Fault::UnknownToken(c, l) => "UNKNOWN TOKEN : "@ + seq![c] + ", at line "@ + int_text(
            l as int,
        ),
        Fault::UnterminatedString(l) => "UNTERMINATED STRING at line "@ + int_text(l as int),
        Fault::FloatParsing(s, l) => s + " at line "@ + int_text(l as int),
        Fault::IntegerParsing(s, l) => s + " at line "@ + int_text(l as int),
        Fault::InvalidToken(t) => "INVALID TOKEN : "@ + t.lexeme + ", at line "@ + line_text(t),
        Fault::ZeroDivision(t) => "ZERO DIVISION ERROR at line "@ + line_text(t),
        Fault::InvalidUnary(v, t) => "OPERATION "@ + kind_name(t.kind)
            + " is not defined for operands of type "@ + render(v, m) + "."@,
        Fault::UnterminatedParenthesis(t) => "UNTERMINATED PARENTHESIS : "@ + t.lexeme
            + ", at line "@ + line_text(t),
        Fault::InvalidBinary(l, t, r) => "OPERATION "@ + kind_name(t.kind)
            + " is not defined for operands of type "@ + render(l, m) + ", "@ + render(r, m)
            + "."@,
        Fault::ExpectedAToken(t, s) => "EXPECTED A TOKEN : "@ + s + " on line "@ + line_text(t),
        Fault::Parsing(s, l) => "PARSING ERROR : "@ + s + " at line "@ + int_text(l as int),
        Fault::UndefinedVariable(t) => "UNDEFINED VARIABLE : "@ + t.lexeme + ", at line "@
            + line_text(t),
        Fault::NoFloatResult(t) => "NO FLOATING-POINT RESULT at line "@ + line_text(t),
    }
}

fn append_line(s: &mut String, t: &Token)
    ensures
        final(s)@ == old(s)@ + line_text(t@),
{
    append_int(s, t.line_number as i128);
}

impl Error {
    /// The message of the error.
    pub fn to_string<F: Fn(FloatQuery) -> FloatAnswer>(&self, unit: &F) -> (r: String)
        requires
            ready(*unit),
        ensures
            forall|m: spec_fn(Query) -> Answer| follows(*unit, m) ==> r@ == message(self@, m),
            message_settled(self@) matches Some(t) ==> r@ == t,
    {
        let mut s: String;
        match self {
            Error::UnknownToken(c, l) => {
                s = String::from_str("UNKNOWN TOKEN : ");
                push_char(&mut s, *c);
                s.append(", at line ");
                append_int(&mut s, *l);
            },
            Error::UnterminatedStringError(l) => {
                s = String::from_str("UNTERMINATED STRING at line ");
                append_int(&mut s, *l);
            },
            Error::FloatParsingError(msg, l) | Error::IntegerParsingError(msg, l) => {
                s = msg.clone();
                s.append(" at line ");
                append_int(&mut s, *l);
            },
            Error::InvalidToken(t) => {
                s = String::from_str("INVALID TOKEN : ");
                s.append(t.lexeme.as_str());
                s.append(", at line ");
                append_line(&mut s, t);
            },
            Error::ZeroDivisionError(t) => {
                s = String::from_str("ZERO DIVISION ERROR at line ");
                append_line(&mut s, t);
            },
            Error::InvalidUnaryOperation(v, t) => {
                s = String::from_str("OPERATION ");
                s.append(t.token_type.to_string().as_str());
                s.append(" is not defined for operands of type ");
                s.append(v.to_string(unit).as_str());
                s.append(".");
            },
            Error::UnterminatedParenthesis(t) => {
                s = String::from_str("UNTERMINATED PARENTHESIS : ");
                s.append(t.lexeme.as_str());
                s.append(", at line ");
                append_line(&mut s, t);
            },
            Error::InvalidBinaryOperation(l, t, r) => {
                s = String::from_str("OPERATION ");
                s.append(t.token_type.to_string().as_str());
                s.append(" is not defined for operands of type ");
                s.append(l.to_string(unit).as_str());
                s.append(", ");
                s.append(r.to_string(unit).as_str());
                s.append(".");
            },
            Error::ExpectedAToken(t, msg) => {
                s = String::from_str("EXPECTED A TOKEN : ");
                s.append(msg.as_str());
                s.append(" on line ");
                append_line(&mut s, t);
            },
            Error::ParsingError(msg, l) => {
                s = String::from_str("PARSING ERROR : ");
                s.append(msg.as_str());
                s.append(" at line ");
                append_int(&mut s, *l);
            },
            Error::UndefinedVariable(t) => {
                s = String::from_str("UNDEFINED VARIABLE : ");
                s.append(t.lexeme.as_str());
                s.append(", at line ");
                append_line(&mut s, t);
            },
            Error::NoFloatResult(t) => {
                s = String::from_str("NO FLOATING-POINT RESULT at line ");
                append_line(&mut s, t);
            },
        }
        s
    }
}

} // verus!
