//! Tokens and the runtime values that literals carry.
use crate::float::{ask, follows, ready, silent, Answer, FloatAnswer, FloatQuery, Query};
use crate::bigint::BigInt;
use crate::text::int_text;
use vstd::prelude::*;

verus! {

/// The kinds of lexical token.
#[allow(non_camel_case_types)]
#[derive(Clone, Copy, Debug, PartialEq, Eq, Structural)]
pub enum TokenType {
    LEFT_PAREN,
    RIGHT_PAREN,
    LEFT_BRACE,
    RIGHT_BRACE,
    COMMA,
    DOT,
    MINUS,
    PLUS,
    SEMICOLON,
    SLASH,
    STAR,
    MODULO,
    BANG,
    BANG_EQUAL,
    EQUAL,
    EQUAL_EQUAL,
    GREATER,
    GREATER_EQUAL,
    LESS,
    LESS_EQUAL,
    IDENTIFIER,
    STRING,
    NUMBER,
    AND,
    CLASS,
    ELSE,
    FALSE,
    FUN,
    FOR,
    IF,
    NIL,
    OR,
    PRINT,
    RETURN,
    SUPER,
    THIS,
    TRUE,
    VAR,
    WHILE,
    EOF,
    BAD_TOKEN,
}

/// The name of a token kind, as it appears in messages.
pub open spec fn kind_name(k: TokenType) -> Seq<char> {
    match k {
        TokenType::LEFT_PAREN => "LEFT_PAREN"@,
        TokenType::RIGHT_PAREN => "RIGHT_PAREN"@,
        TokenType::LEFT_BRACE => "LEFT_BRACE"@,
        TokenType::RIGHT_BRACE => "RIGHT_BRACE"@,
        TokenType::COMMA => "COMMA"@,
        TokenType::DOT => "DOT"@,
        TokenType::MINUS => "MINUS"@,
        TokenType::PLUS => "PLUS"@,
        TokenType::SEMICOLON => "SEMICOLON"@,
        TokenType::SLASH => "SLASH"@,
        TokenType::STAR => "STAR"@,
        TokenType::MODULO => "MODULO"@,
        TokenType::BANG => "BANG"@,
        TokenType::BANG_EQUAL => "BANG_EQUAL"@,
        TokenType::EQUAL => "EQUAL"@,
        TokenType::EQUAL_EQUAL => "EQUAL_EQUAL"@,
        TokenType::GREATER => "GREATER"@,
        TokenType::GREATER_EQUAL => "GREATER_EQUAL"@,
        TokenType::LESS => "LESS"@,
        TokenType::LESS_EQUAL => "LESS_EQUAL"@,
        TokenType::IDENTIFIER => "IDENTIFIER"@,
        TokenType::STRING => "STRING"@,
        TokenType::NUMBER => "NUMBER"@,
        TokenType::AND => "AND"@,
        TokenType::CLASS => "CLASS"@,
        TokenType::ELSE => "ELSE"@,
        TokenType::FALSE => "FALSE"@,
        TokenType::FUN => "FUN"@,
        TokenType::FOR => "FOR"@,
        TokenType::IF => "IF"@,
        TokenType::NIL => "NIL"@,
        TokenType::OR => "OR"@,
        TokenType::PRINT => "PRINT"@,
        TokenType::RETURN => "RETURN"@,
        TokenType::SUPER => "SUPER"@,
        TokenType::THIS => "THIS"@,
        TokenType::TRUE => "TRUE"@,
        TokenType::VAR => "VAR"@,
        TokenType::WHILE => "WHILE"@,
        TokenType::EOF => "EOF"@,
        TokenType::BAD_TOKEN => "BAD_TOKEN"@,
    }
}

impl TokenType {
    /// The name of the token kind.
    pub fn to_string(&self) -> (r: String)
        ensures
            r@ == kind_name(*self),
    {
        let s: &str = match self {
        TokenType::LEFT_PAREN => "LEFT_PAREN",
        TokenType::RIGHT_PAREN => "RIGHT_PAREN",
        TokenType::LEFT_BRACE => "LEFT_BRACE",
        TokenType::RIGHT_BRACE => "RIGHT_BRACE",
        TokenType::COMMA => "COMMA",
        TokenType::DOT => "DOT",
        TokenType::MINUS => "MINUS",
        TokenType::PLUS => "PLUS",
        TokenType::SEMICOLON => "SEMICOLON",
        TokenType::SLASH => "SLASH",
        TokenType::STAR => "STAR",
        TokenType::MODULO => "MODULO",
        TokenType::BANG => "BANG",
        TokenType::BANG_EQUAL => "BANG_EQUAL",
        TokenType::EQUAL => "EQUAL",
        TokenType::EQUAL_EQUAL => "EQUAL_EQUAL",
        TokenType::GREATER => "GREATER",
        TokenType::GREATER_EQUAL => "GREATER_EQUAL",
        TokenType::LESS => "LESS",
        TokenType::LESS_EQUAL => "LESS_EQUAL",
        TokenType::IDENTIFIER => "IDENTIFIER",
        TokenType::STRING => "STRING",
        TokenType::NUMBER => "NUMBER",
        TokenType::AND => "AND",
        TokenType::CLASS => "CLASS",
        TokenType::ELSE => "ELSE",
        TokenType::FALSE => "FALSE",
        TokenType::FUN => "FUN",
        TokenType::FOR => "FOR",
        TokenType::IF => "IF",
        TokenType::NIL => "NIL",
        TokenType::OR => "OR",
        TokenType::PRINT => "PRINT",
        TokenType::RETURN => "RETURN",
        TokenType::SUPER => "SUPER",
        TokenType::THIS => "THIS",
        TokenType::TRUE => "TRUE",
        TokenType::VAR => "VAR",
        TokenType::WHILE => "WHILE",
        TokenType::EOF => "EOF",
        TokenType::BAD_TOKEN => "BAD_TOKEN",
        };
        String::from_str(s)
    }
}

/// A runtime value. A floating-point value is held as its IEEE-754 bit pattern;
/// arithmetic on it is done by the host's floating-point unit.
#[derive(Debug)]
pub enum LiteralValue {
    IntValue(BigInt),
    FValue(u64),
    StringValue(String),
    IdentifierValue(String),
    True,
    False,
    Nil,
}

/// The mathematical model of a runtime value: text is a sequence of characters.
pub enum Val {
    Int(int),
    Float(u64),
    Str(Seq<char>),
    Ident(Seq<char>),
    True,
    False,
    Nil,
}

impl View for LiteralValue {
    type V = Val;

    open spec fn view(&self) -> Val {
        match self {
            LiteralValue::IntValue(x) => Val::Int(x@),
            LiteralValue::FValue(b) => Val::Float(*b),
            LiteralValue::StringValue(s) => Val::Str(s@),
            LiteralValue::IdentifierValue(s) => Val::Ident(s@),
            LiteralValue::True => Val::True,
            LiteralValue::False => Val::False,
            LiteralValue::Nil => Val::Nil,
        }
    }
}

/// The boolean value of `b`.
pub open spec fn bool_val(b: bool) -> Val {
    if b {
        Val::True
    } else {
        Val::False
    }
}

impl LiteralValue {
    /// Copies the value.
    pub fn duplicate(&self) -> (r: LiteralValue)
        ensures
            r@ == self@,
    {
        match self {
            LiteralValue::IntValue(x) => LiteralValue::IntValue(x.copy()),
            LiteralValue::FValue(b) => LiteralValue::FValue(*b),
            LiteralValue::StringValue(s) => LiteralValue::StringValue(s.clone()),
            LiteralValue::IdentifierValue(s) => LiteralValue::IdentifierValue(s.clone()),
            LiteralValue::True => LiteralValue::True,
            LiteralValue::False => LiteralValue::False,
            LiteralValue::Nil => LiteralValue::Nil,
        }
    }

    /// The boolean value of `b`.
    pub fn from_bool(b: bool) -> (r: LiteralValue)
        ensures
            r@ == bool_val(b),
    {
        if b {
            LiteralValue::True
        } else {
            LiteralValue::False
        }
    }
}

/// The text of a value. A floating-point value is rendered by the unit; an
/// answer that is not text renders as nothing.
pub open spec fn render(v: Val, m: spec_fn(Query) -> Answer) -> Seq<char> {
    match v {
        Val::Int(x) => int_text(x),
        Val::Float(b) => match m(Query::Render(b)) {
            Answer::Text(t) => t,
            _ => Seq::empty(),
        },
        Val::Str(s) => s,
        Val::Ident(s) => s,
        Val::True => "true"@,
        Val::False => "false"@,
        Val::Nil => "nil"@,
    }
}

impl LiteralValue {
    /// The text of the value.
    pub fn to_string<F: Fn(FloatQuery) -> FloatAnswer>(&self, unit: &F) -> (r: String)
        requires
            ready(*unit),
        ensures
            forall|m: spec_fn(Query) -> Answer| follows(*unit, m) ==> r@ == render(self@, m),
            !(self@ is Float) ==> r@ == render(self@, silent()),
    {
        match self {
            LiteralValue::IntValue(x) => x.to_text(),
            LiteralValue::FValue(b) => match ask(unit, FloatQuery::Render(*b)) {
                FloatAnswer::Text(t) => t,
                _ => String::new(),
            },
            LiteralValue::StringValue(s) => s.clone(),
            LiteralValue::IdentifierValue(s) => s.clone(),
            LiteralValue::True => String::from_str("true"),
            LiteralValue::False => String::from_str("false"),
            LiteralValue::Nil => String::from_str("nil"),
        }
    }
}

/// A lexical token: its kind, its source text, the value of a literal, and the
/// line on which it ends.
#[derive(Debug)]
pub struct Token {
    pub token_type: TokenType,
    pub lexeme: String,
    pub literal: Option<LiteralValue>,
    pub line_number: usize,
}

/// The mathematical model of a token.
pub struct Tok {
    pub kind: TokenType,
    pub lexeme: Seq<char>,
    pub literal: Option<Val>,
    pub line: nat,
}

/// The model of an optional literal.
pub open spec fn opt_val(v: Option<LiteralValue>) -> Option<Val> {
    match v {
        Some(x) => Some(x@),
        None => None,
    }
}

impl View for Token {
    type V = Tok;

    open spec fn view(&self) -> Tok {
        Tok {
            kind: self.token_type,
            lexeme: self.lexeme@,
            literal: opt_val(self.literal),
            line: self.line_number as nat,
        }
    }
}

impl Token {
    pub fn new(
        token_type: TokenType,
        lexeme: String,
        literal: Option<LiteralValue>,
        line_number: usize,
    ) -> (r: Token)
        ensures
            r.token_type == token_type,
            r.lexeme == lexeme,
            r.literal == literal,
            r.line_number == line_number,
    {
        Token { token_type, lexeme, literal, line_number }
    }

    /// Copies the token.
    pub fn duplicate(&self) -> (r: Token)
        ensures
            r@ == self@,
    {
        let literal = match &self.literal {
            Some(v) => Some(v.duplicate()),
            None => None,
        };
        Token {
            token_type: self.token_type,
            lexeme: self.lexeme.clone(),
            literal,
            line_number: self.line_number,
        }
    }
}

/// The text of a literal as a token shows it: the variant's name, with the
/// value in parentheses where it carries one, a text in double quotes.
pub open spec fn literal_text(v: Val, m: spec_fn(Query) -> Answer) -> Seq<char> {
    match v {
        Val::Int(_) => "IntValue("@ + render(v, m) + ")"@,
        Val::Float(_) => "FValue("@ + render(v, m) + ")"@,
        Val::Str(_) => "StringValue(\""@ + render(v, m) + "\")"@,
        Val::Ident(_) => "IdentifierValue(\""@ + render(v, m) + "\")"@,
        Val::True => "True"@,
        Val::False => "False"@,
        Val::Nil => "Nil"@,
    }
}

/// The text of a token: kind, lexeme, literal and line, separated by commas.
pub open spec fn token_text(t: Tok, m: spec_fn(Query) -> Answer) -> Seq<char> {
    kind_name(t.kind) + ", "@ + t.lexeme + ", "@ + match t.literal {
        Some(v) => literal_text(v, m),
        None => "NO LITERAL !"@,
    } + ", "@ + int_text(t.line as int)
}

impl Token {
    /// The text of the token.
    pub fn to_string<F: Fn(FloatQuery) -> FloatAnswer>(&self, unit: &F) -> (r: String)
        requires
            ready(*unit),
        ensures
            forall|m: spec_fn(Query) -> Answer| follows(*unit, m) ==> r@ == token_text(self@, m),
            !(self@.literal matches Some(Val::Float(_))) ==> r@ == token_text(self@, silent()),
    {
        let mut s = self.token_type.to_string();
        s.append(", ");
        s.append(self.lexeme.as_str());
        s.append(", ");
        match &self.literal {
            Some(v) => {
                let (open, close) = match v {
                    LiteralValue::IntValue(_) => ("IntValue(", ")"),
                    LiteralValue::FValue(_) => ("FValue(", ")"),
                    LiteralValue::StringValue(_) => ("StringValue(\"", "\")"),
                    LiteralValue::IdentifierValue(_) => ("IdentifierValue(\"", "\")"),
                    LiteralValue::True => ("True", ""),
                    LiteralValue::False => ("False", ""),
                    LiteralValue::Nil => ("Nil", ""),
                };
                s.append(open);
                match v {
                    LiteralValue::True | LiteralValue::False | LiteralValue::Nil => {},
                    _ => {
                        s.append(v.to_string(unit).as_str());
                        s.append(close);
                    },
                }
            },
            None => {
                s.append("NO LITERAL !");
            },
        }
        s.append(", ");
        crate::text::append_int(&mut s, self.line_number as i128);
        s
    }
}

} // verus!
