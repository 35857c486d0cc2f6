//! The recursive-descent parser: tokens to statements.
use crate::errors::{Error, Fault};
use crate::expressions::{Ex, Expression};
use crate::scanner::toks;
use crate::statements::{stmts, Statement, Stmt};
use crate::token::{LiteralValue, Tok, Token, TokenType, Val};
use vstd::prelude::*;

verus! {

/// A token sequence that the parser accepts: it ends with the end-of-input token.
pub open spec fn well_formed(ts: Seq<Tok>) -> bool {
    0 < ts.len() <= usize::MAX && ts.last().kind == TokenType::EOF
}

/// The token at `i` has kind `k` and is not the end of input.
pub open spec fn check(ts: Seq<Tok>, i: int, k: TokenType) -> bool {
    0 <= i < ts.len() && ts[i].kind != TokenType::EOF && ts[i].kind == k
}

/// The operators of each binary precedence level, loosest first: equality,
/// comparison, term, factor.
pub open spec fn level_op(n: nat, k: TokenType) -> bool {
    if n == 0 {
        k == TokenType::BANG_EQUAL || k == TokenType::EQUAL_EQUAL
    } else if n == 1 {
        k == TokenType::GREATER || k == TokenType::GREATER_EQUAL || k == TokenType::LESS || k
            == TokenType::LESS_EQUAL
    } else if n == 2 {
        k == TokenType::MINUS || k == TokenType::PLUS
    } else {
        k == TokenType::SLASH || k == TokenType::STAR
    }
}

/// The token at `i` is an operator of level `n`.
pub open spec fn at_op(ts: Seq<Tok>, i: int, n: nat) -> bool {
    0 <= i < ts.len() && ts[i].kind != TokenType::EOF && level_op(n, ts[i].kind)
}

/// A parse of an expression: the tree and the position after it.
pub type Parsed = Result<(Ex, int), Fault>;

/// An expression at level `n` (0 to 3), or a unary expression at level 4,
/// starting at `i`. Every successful parse consumes at least one token (see
/// `law_parse_advances`), so the branches for a parse that does not move
/// forward are never taken; they only make the recursion well founded.
pub open spec fn parse_level(ts: Seq<Tok>, i: int, n: nat) -> Parsed
    decreases ts.len() - i, 7 - n, 0nat,
{
    if i < 0 || i >= ts.len() || n > 4 {
        Err(Fault::InvalidToken(ts[i]))
    } else if n == 4 {
        parse_unary(ts, i)
    } else {
        match parse_level(ts, i, n + 1) {
            Err(f) => Err(f),
            Ok((e, j)) => if j <= i || j >= ts.len() {
                Err(Fault::InvalidToken(ts[i]))
            } else {
                level_rest(ts, e, j, n)
            },
        }
    }
}

/// The rest of a level-`n` chain whose left operand `left` ends at `j`: each
/// operator folds what came before into its left operand.
pub open spec fn level_rest(ts: Seq<Tok>, left: Ex, j: int, n: nat) -> Parsed
    decreases ts.len() - j, 7 - n, 1nat,
{
    if 0 <= j < ts.len() && n < 4 && at_op(ts, j, n) {
        match parse_level(ts, j + 1, n + 1) {
            Err(f) => Err(f),
            Ok((r, k)) => if k <= j + 1 || k >= ts.len() {
                Err(Fault::InvalidToken(ts[j]))
            } else {
                level_rest(ts, Ex::Binary(Box::new(left), ts[j], Box::new(r)), k, n)
            },
        }
    } else {
        Ok((left, j))
    }
}

/// A unary expression starting at `i`.
pub open spec fn parse_unary(ts: Seq<Tok>, i: int) -> Parsed
    decreases ts.len() - i, 2nat, 0nat,
{
    if i < 0 || i >= ts.len() {
        Err(Fault::InvalidToken(ts[i]))
    } else if check(ts, i, TokenType::BANG) || check(ts, i, TokenType::MINUS) {
        match parse_unary(ts, i + 1) {
            Err(f) => Err(f),
            Ok((r, j)) => Ok((Ex::Unary(ts[i], Box::new(r)), j)),
        }
    } else {
        parse_primary(ts, i)
    }
}

/// A primary expression starting at `i`.
pub open spec fn parse_primary(ts: Seq<Tok>, i: int) -> Parsed
    decreases ts.len() - i, 1nat, 0nat,
{
    if i < 0 || i >= ts.len() {
        Err(Fault::InvalidToken(ts[i]))
    } else if check(ts, i, TokenType::FALSE) {
        Ok((Ex::Literal(Val::False), i + 1))
    } else if check(ts, i, TokenType::TRUE) {
        Ok((Ex::Literal(Val::True), i + 1))
    } else if check(ts, i, TokenType::NIL) {
        Ok((Ex::Literal(Val::Nil), i + 1))
    } else if check(ts, i, TokenType::NUMBER) || check(ts, i, TokenType::STRING) {
        match ts[i].literal {
            Some(v) => Ok((Ex::Literal(v), i + 1)),
            None => Err(Fault::InvalidToken(ts[i])),
        }
    } else if check(ts, i, TokenType::LEFT_PAREN) {
        match parse_level(ts, i + 1, 0) {
            Err(f) => Err(f),
            Ok((e, j)) => if check(ts, j, TokenType::RIGHT_PAREN) {
                Ok((Ex::Grouping(Box::new(e)), j + 1))
            } else {
                Err(Fault::ExpectedAToken(ts[j], "Missing ')'"@))
            },
        }
    } else if ts[i].kind == TokenType::IDENTIFIER {
        Ok((Ex::Variable(ts[i]), i + 1))
    } else {
        Err(Fault::InvalidToken(ts[i]))
    }
}

/// An expression starting at `i`.
pub open spec fn parse_expression(ts: Seq<Tok>, i: int) -> Parsed {
    parse_level(ts, i, 0)
}

/// A parse of a statement: the statement and the position after it.
pub type ParsedStmt = Result<(Stmt, int), Fault>;

/// An expression at `i` followed by `;`; `msg` says what is missing otherwise.
pub open spec fn with_semicolon(ts: Seq<Tok>, i: int, msg: Seq<char>) -> Parsed {
    match parse_expression(ts, i) {
        Err(f) => Err(f),
        Ok((e, j)) => if check(ts, j, TokenType::SEMICOLON) {
            Ok((e, j + 1))
        } else {
            Err(Fault::ExpectedAToken(ts[j], msg))
        },
    }
}

/// The message of a missing `;` after a statement.
pub open spec fn after_value_message() -> Seq<char> {
    "Expect ';' after value."@
}

/// The message of a missing `;` after a variable declaration.
pub open spec fn missing_semicolon_message() -> Seq<char> {
    "Missing ';'"@
}

/// A variable declaration whose `var` ends before `i`.
pub open spec fn parse_var(ts: Seq<Tok>, i: int) -> ParsedStmt {
    if check(ts, i, TokenType::IDENTIFIER) {
        let name = ts[i];
        if check(ts, i + 1, TokenType::EQUAL) {
            match with_semicolon(ts, i + 2, missing_semicolon_message()) {
                Err(f) => Err(f),
                Ok((e, j)) => Ok((Stmt::Variable(name, e), j)),
            }
        } else if check(ts, i + 1, TokenType::SEMICOLON) {
            Ok((Stmt::Variable(name, Ex::Literal(Val::Nil)), i + 2))
        } else {
            Err(Fault::ExpectedAToken(ts[i + 1], missing_semicolon_message()))
        }
    } else {
        Err(Fault::ExpectedAToken(ts[i], "Variable name"@))
    }
}

/// A declaration or statement starting at `i`.
pub open spec fn parse_declaration(ts: Seq<Tok>, i: int) -> ParsedStmt {
    if check(ts, i, TokenType::VAR) {
        parse_var(ts, i + 1)
    } else if check(ts, i, TokenType::PRINT) {
        match with_semicolon(ts, i + 1, after_value_message()) {
            Err(f) => Err(f),
            Ok((e, j)) => Ok((Stmt::Print(e), j)),
        }
    } else {
        match with_semicolon(ts, i, after_value_message()) {
            Err(f) => Err(f),
            Ok((e, j)) => Ok((Stmt::Expression(e), j)),
        }
    }
}

/// The statements from `i` to the end of input, or the first parse error.
pub open spec fn parse_from(ts: Seq<Tok>, i: int) -> Result<Seq<Stmt>, Fault>
    decreases ts.len() - i,
{
    if i < 0 || i >= ts.len() || ts[i].kind == TokenType::EOF {
        Ok(Seq::empty())
    } else {
        match parse_declaration(ts, i) {
            Err(f) => Err(f),
            Ok((s, j)) => if j <= i || j > ts.len() {
                Err(Fault::InvalidToken(ts[i]))
            } else {
                match parse_from(ts, j) {
                    Err(f) => Err(f),
                    Ok(rest) => Ok(seq![s] + rest),
                }
            },
        }
    }
}

/// The statements of a whole token sequence, or the first parse error.
pub open spec fn parse_program(ts: Seq<Tok>) -> Result<Seq<Stmt>, Fault> {
    parse_from(ts, 0)
}

/// The exec result of an expression parse agrees with its model.
pub open spec fn agrees(r: Result<(Expression, usize), Error>, s: Parsed) -> bool {
    match (r, s) {
        (Ok((e, j)), Ok((se, sj))) => e@ == se && j == sj,
        (Err(e), Err(f)) => e@ == f,
        _ => false,
    }
}

/// The exec result of a statement parse agrees with its model.
pub open spec fn agrees_stmt(r: Result<(Statement, usize), Error>, s: ParsedStmt) -> bool {
    match (r, s) {
        (Ok((st, j)), Ok((ss, sj))) => st@ == ss && j == sj,
        (Err(e), Err(f)) => e@ == f,
        _ => false,
    }
}

fn check_at(ts: &Vec<Token>, i: usize, k: TokenType) -> (r: bool)
    requires
        well_formed(toks(ts@)),
        i < ts@.len(),
    ensures
        r ==> i + 1 < ts@.len(),
        r == check(toks(ts@), i as int, k),
{
    proof {
        lemma_before_end(toks(ts@), i as int);
    }
    ts[i].token_type != TokenType::EOF && ts[i].token_type == k
}

proof fn lemma_before_end(t: Seq<Tok>, i: int)
    requires
        well_formed(t),
        0 <= i < t.len(),
    ensures
        t[i].kind != TokenType::EOF ==> i + 1 < t.len(),
{
    assert(t.last() == t[t.len() - 1]);
}

fn level_op_at(ts: &Vec<Token>, i: usize, n: usize) -> (r: bool)
    requires
        well_formed(toks(ts@)),
        i < ts@.len(),
    ensures
        r ==> i + 1 < ts@.len(),
        r == at_op(toks(ts@), i as int, n as nat),
{
    proof {
        lemma_before_end(toks(ts@), i as int);
    }
    let k = ts[i].token_type;
    if k == TokenType::EOF {
        false
    } else if n == 0 {
        k == TokenType::BANG_EQUAL || k == TokenType::EQUAL_EQUAL
    } else if n == 1 {
        k == TokenType::GREATER || k == TokenType::GREATER_EQUAL || k == TokenType::LESS || k
            == TokenType::LESS_EQUAL
    } else if n == 2 {
        k == TokenType::MINUS || k == TokenType::PLUS
    } else {
        k == TokenType::SLASH || k == TokenType::STAR
    }
}

/// Parses a binary level `n` (0 to 3), or a unary expression at level 4.
fn level(ts: &Vec<Token>, i: usize, n: usize) -> (r: Result<(Expression, usize), Error>)
    requires
        well_formed(toks(ts@)),
        i < ts@.len(),
        n <= 4,
    ensures
        agrees(r, parse_level(toks(ts@), i as int, n as nat)),
        r matches Ok((_, j)) ==> i < j < ts@.len(),
    decreases ts@.len() - i, 7 - n, 0nat,
{
    let ghost t = toks(ts@);
    if n == 4 {
        return unary(ts, i);
    }
    let (mut expr, mut j) = match level(ts, i, n + 1) {
        Ok(p) => p,
        Err(e) => return Err(e),
    };
    while level_op_at(ts, j, n)
        invariant
            well_formed(t),
            t == toks(ts@),
            n < 4,
            i < j < ts@.len(),
            parse_level(t, i as int, n as nat) == level_rest(t, expr@, j as int, n as nat),
        decreases ts@.len() - j,
    {
        let operator = ts[j].duplicate();
        let (right, k) = match level(ts, j + 1, n + 1) {
            Ok(p) => p,
            Err(e) => return Err(e),
        };
        expr = Expression::Binary { left: Box::new(expr), operator, right: Box::new(right) };
        j = k;
    }
    Ok((expr, j))
}

/// Parses a unary expression.
fn unary(ts: &Vec<Token>, i: usize) -> (r: Result<(Expression, usize), Error>)
    requires
        well_formed(toks(ts@)),
        i < ts@.len(),
    ensures
        agrees(r, parse_unary(toks(ts@), i as int)),
        r matches Ok((_, j)) ==> i < j < ts@.len(),
    decreases ts@.len() - i, 2nat, 0nat,
{
    if check_at(ts, i, TokenType::BANG) || check_at(ts, i, TokenType::MINUS) {
        let operator = ts[i].duplicate();
        match unary(ts, i + 1) {
            Ok((right, j)) => Ok((Expression::Unary { operator, right: Box::new(right) }, j)),
            Err(e) => Err(e),
        }
    } else {
        primary(ts, i)
    }
}

/// Parses a primary expression; a token that begins none is an error.
fn primary(ts: &Vec<Token>, i: usize) -> (r: Result<(Expression, usize), Error>)
    requires
        well_formed(toks(ts@)),
        i < ts@.len(),
    ensures
        agrees(r, parse_primary(toks(ts@), i as int)),
        r matches Ok((_, j)) ==> i < j < ts@.len(),
    decreases ts@.len() - i, 1nat, 0nat,
{
    if check_at(ts, i, TokenType::FALSE) {
        Ok((Expression::Literal { value: LiteralValue::False }, i + 1))
    } else if check_at(ts, i, TokenType::TRUE) {
        Ok((Expression::Literal { value: LiteralValue::True }, i + 1))
    } else if check_at(ts, i, TokenType::NIL) {
        Ok((Expression::Literal { value: LiteralValue::Nil }, i + 1))
    } else if check_at(ts, i, TokenType::NUMBER) || check_at(ts, i, TokenType::STRING) {
        match &ts[i].literal {
            Some(v) => Ok((Expression::Literal { value: v.duplicate() }, i + 1)),
            None => Err(Error::InvalidToken(ts[i].duplicate())),
        }
    } else if check_at(ts, i, TokenType::LEFT_PAREN) {
        match level(ts, i + 1, 0) {
            Ok((e, j)) => if check_at(ts, j, TokenType::RIGHT_PAREN) {
                Ok((Expression::Grouping { expression: Box::new(e) }, j + 1))
            } else {
                Err(Error::ExpectedAToken(ts[j].duplicate(), String::from_str("Missing ')'")))
            },
            Err(e) => Err(e),
        }
    } else if ts[i].token_type == TokenType::IDENTIFIER {
        Ok((Expression::Variable { name: ts[i].duplicate() }, i + 1))
    } else {
        Err(Error::InvalidToken(ts[i].duplicate()))
    }
}

/// Parses an expression followed by `;`.
fn with_semicolon_at(ts: &Vec<Token>, i: usize, msg: &str) -> (r: Result<(Expression, usize), Error>)
    requires
        well_formed(toks(ts@)),
        i < ts@.len(),
    ensures
        agrees(r, with_semicolon(toks(ts@), i as int, msg@)),
        r matches Ok((_, j)) ==> i < j < ts@.len(),
{
    match level(ts, i, 0) {
        Ok((e, j)) => if check_at(ts, j, TokenType::SEMICOLON) {
            Ok((e, j + 1))
        } else {
            Err(Error::ExpectedAToken(ts[j].duplicate(), String::from_str(msg)))
        },
        Err(e) => Err(e),
    }
}

/// Parses a variable declaration whose `var` ends before `i`.
fn var_declaration(ts: &Vec<Token>, i: usize) -> (r: Result<(Statement, usize), Error>)
    requires
        well_formed(toks(ts@)),
        i < ts@.len(),
    ensures
        agrees_stmt(r, parse_var(toks(ts@), i as int)),
        r matches Ok((_, j)) ==> i < j < ts@.len(),
{
    if !check_at(ts, i, TokenType::IDENTIFIER) {
        return Err(Error::ExpectedAToken(ts[i].duplicate(), String::from_str("Variable name")));
    }
    let name = ts[i].duplicate();
    if check_at(ts, i + 1, TokenType::EQUAL) {
        match with_semicolon_at(ts, i + 2, "Missing ';'") {
            Ok((e, j)) => Ok((Statement::Variable(name, e), j)),
            Err(e) => Err(e),
        }
    } else if check_at(ts, i + 1, TokenType::SEMICOLON) {
        Ok((Statement::Variable(name, Expression::Literal { value: LiteralValue::Nil }), i + 2))
    } else {
        Err(Error::ExpectedAToken(ts[i + 1].duplicate(), String::from_str("Missing ';'")))
    }
}

/// Parses a declaration or statement.
fn declaration(ts: &Vec<Token>, i: usize) -> (r: Result<(Statement, usize), Error>)
    requires
        well_formed(toks(ts@)),
        i < ts@.len(),
    ensures
        agrees_stmt(r, parse_declaration(toks(ts@), i as int)),
        r matches Ok((_, j)) ==> i < j < ts@.len(),
{
    if check_at(ts, i, TokenType::VAR) {
        var_declaration(ts, i + 1)
    } else if check_at(ts, i, TokenType::PRINT) {
        match with_semicolon_at(ts, i + 1, "Expect ';' after value.") {
            Ok((e, j)) => Ok((Statement::PrintStatement(e), j)),
            Err(e) => Err(e),
        }
    } else {
        match with_semicolon_at(ts, i, "Expect ';' after value.") {
            Ok((e, j)) => Ok((Statement::ExpressionStatement(e), j)),
            Err(e) => Err(e),
        }
    }
}

/// Token kinds that begin a declaration or statement, where recovery stops.
pub open spec fn starts_declaration(k: TokenType) -> bool {
    k == TokenType::CLASS || k == TokenType::FUN || k == TokenType::VAR || k == TokenType::FOR
        || k == TokenType::IF || k == TokenType::WHILE || k == TokenType::PRINT || k
        == TokenType::RETURN
}

/// Where recovery that has reached `i` stops: at the end of input, after a
/// `;`, or before a token that begins a declaration.
pub open spec fn sync_from(ts: Seq<Tok>, i: int) -> int
    decreases ts.len() - i,
{
    if i <= 0 || i >= ts.len() || ts[i].kind == TokenType::EOF {
        i
    } else if ts[i - 1].kind == TokenType::SEMICOLON || starts_declaration(ts[i].kind) {
        i
    } else {
        sync_from(ts, i + 1)
    }
}

/// Where recovery from a failed declaration at `i` resumes: past at least one
/// token, unless at the end of input.
pub open spec fn sync_point(ts: Seq<Tok>, i: int) -> int {
    if ts[i].kind == TokenType::EOF {
        i
    } else {
        sync_from(ts, i + 1)
    }
}

/// The start of the first declaration from `i` on that fails to parse, or the
/// position of the end of input.
pub open spec fn parse_stop(ts: Seq<Tok>, i: int) -> int
    decreases ts.len() - i,
{
    if i < 0 || i >= ts.len() || ts[i].kind == TokenType::EOF {
        i
    } else {
        match parse_declaration(ts, i) {
            Err(_) => i,
            Ok((_, j)) => if j <= i || j > ts.len() {
                i
            } else {
                parse_stop(ts, j)
            },
        }
    }
}

/// Where the parser is left: at the end of input after a successful parse;
/// past the next statement boundary after a malformed variable declaration;
/// at the failing statement otherwise.
pub open spec fn resume_point(ts: Seq<Tok>) -> int {
    let i = parse_stop(ts, 0);
    if parse_program(ts) is Err && check(ts, i, TokenType::VAR) {
        sync_point(ts, i)
    } else {
        i
    }
}

/// The model of a program parse.
pub open spec fn parsed(r: Result<Vec<Statement>, Error>) -> Result<Seq<Stmt>, Fault> {
    match r {
        Ok(v) => Ok(stmts(v@)),
        Err(e) => Err(e@),
    }
}

/// Prepends the statements already parsed to what the rest of a parse gives.
pub open spec fn after_stmts(done: Seq<Stmt>, rest: Result<Seq<Stmt>, Fault>) -> Result<
    Seq<Stmt>,
    Fault,
> {
    match rest {
        Ok(ss) => Ok(done + ss),
        Err(f) => Err(f),
    }
}

/// Parses a token sequence into statements.
pub struct Parser {
    tokens: Vec<Token>,
    current: usize,
}

impl Parser {
    /// The tokens being parsed.
    pub closed spec fn tokens(&self) -> Seq<Tok> {
        toks(self.tokens@)
    }

    /// The position of the next token.
    pub closed spec fn position(&self) -> int {
        self.current as int
    }

    pub fn new(tokens: Vec<Token>) -> (r: Parser)
        ensures
            r.tokens() == toks(tokens@),
            r.position() == 0,
    {
        Parser { tokens, current: 0 }
    }

    /// Discards tokens up to the next statement boundary.
    fn synchronize(&mut self)
        requires
            well_formed(toks(old(self).tokens@)),
            old(self).current < old(self).tokens@.len(),
        ensures
            final(self).tokens == old(self).tokens,
            final(self).current == sync_point(toks(old(self).tokens@), old(self).current as int),
    {
        let ghost t = toks(self.tokens@);
        if self.tokens[self.current].token_type == TokenType::EOF {
            return;
        }
        proof {
            lemma_before_end(t, self.current as int);
        }
        self.current = self.current + 1;
        while self.tokens[self.current].token_type != TokenType::EOF
            invariant
                t == toks(self.tokens@),
                well_formed(t),
                self.tokens == old(self).tokens,
                0 < self.current < self.tokens@.len(),
                sync_from(t, self.current as int) == sync_point(t, old(self).current as int),
            decreases self.tokens@.len() - self.current,
        {
            let k = self.tokens[self.current].token_type;
            if self.tokens[self.current - 1].token_type == TokenType::SEMICOLON {
                return;
            }
            if k == TokenType::CLASS || k == TokenType::FUN || k == TokenType::VAR || k
                == TokenType::FOR || k == TokenType::IF || k == TokenType::WHILE || k
                == TokenType::PRINT || k == TokenType::RETURN {
                return;
            }
            proof {
                lemma_before_end(t, self.current as int);
            }
            self.current = self.current + 1;
        }
    }

    /// Parses the whole token sequence: the statements in order, or the first
    /// parse error. After a malformed variable declaration the parser is left
    /// at the next statement boundary.
    pub fn parse(&mut self) -> (r: Result<Vec<Statement>, Error>)
        requires
            well_formed(old(self).tokens()),
            old(self).position() == 0,
        ensures
            parsed(r) == parse_program(old(self).tokens()),
            final(self).tokens() == old(self).tokens(),
            final(self).position() == resume_point(old(self).tokens()),
    {
        let ghost t = toks(self.tokens@);
        let mut statements: Vec<Statement> = Vec::new();
        while self.tokens[self.current].token_type != TokenType::EOF
            invariant
                t == toks(self.tokens@),
                t == old(self).tokens(),
                well_formed(t),
                self.current < self.tokens@.len(),
                parse_program(t) == after_stmts(
                    stmts(statements@),
                    parse_from(t, self.current as int),
                ),
                parse_stop(t, 0) == parse_stop(t, self.current as int),
            decreases self.tokens@.len() - self.current,
        {
            let is_var = check_at(&self.tokens, self.current, TokenType::VAR);
            match declaration(&self.tokens, self.current) {
                Ok((statement, j)) => {
                    let ghost done = stmts(statements@);
                    statements.push(statement);
                    assert(stmts(statements@) =~= done.push(statement@));
                    assert(match parse_from(t, j as int) {
                        Ok(rest) => done + (seq![statement@] + rest) =~= stmts(statements@) + rest,
                        Err(_) => true,
                    });
                    self.current = j;
                },
                Err(e) => {
                    if is_var {
                        self.synchronize();
                    }
                    return Err(e);
                },
            }
        }
        assert(stmts(statements@) + Seq::<Stmt>::empty() =~= stmts(statements@));
        Ok(statements)
    }
}

} // verus!
