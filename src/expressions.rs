//! The expression tree and its evaluation.
use crate::bigint::BigInt;
use crate::errors::{Error, Fault};
use crate::float::{
    ask, float_is_zero, follows, is_zero_bits, ready, silent, Answer, ArithOp, FloatAnswer, FloatQuery,
    Num, Number, Order, Query,
};
use crate::token::{bool_val, render, LiteralValue, Tok, Token, TokenType, Val};
use vstd::prelude::*;

verus! {

/// An expression; each node owns its children.
pub enum Expression {
    Binary { left: Box<Expression>, operator: Token, right: Box<Expression> },
    Unary { operator: Token, right: Box<Expression> },
    Grouping { expression: Box<Expression> },
    Literal { value: LiteralValue },
    Variable { name: Token },
}

/// The model of an expression.
pub enum Ex {
    Binary(Box<Ex>, Tok, Box<Ex>),
    Unary(Tok, Box<Ex>),
    Grouping(Box<Ex>),
    Literal(Val),
    Variable(Tok),
}

impl View for Expression {
    type V = Ex;

    open spec fn view(&self) -> Ex
        decreases self,
    {
        match self {
            Expression::Binary { left, operator, right } => Ex::Binary(
                Box::new((**left).view()),
                operator@,
                Box::new((**right).view()),
            ),
            Expression::Unary { operator, right } => Ex::Unary(
                operator@,
                Box::new((**right).view()),
            ),
            Expression::Grouping { expression } => Ex::Grouping(Box::new((**expression).view())),
            Expression::Literal { value } => Ex::Literal(value@),
            Expression::Variable { name } => Ex::Variable(name@),
        }
    }
}

/// The model of an evaluation result.
pub open spec fn outcome(r: Result<LiteralValue, Error>) -> Result<Val, Fault> {
    match r {
        Ok(v) => Ok(v@),
        Err(e) => Err(e@),
    }
}

/// A value that an operator of the numeric tower accepts.
pub open spec fn number_of(v: Val) -> Option<Num> {
    match v {
        Val::Int(x) => Some(Num::Int(x)),
        Val::Float(b) => Some(Num::Float(b)),
        _ => None,
    }
}

/// The arithmetic operation of an operator token.
pub open spec fn arith_of(k: TokenType) -> Option<ArithOp> {
    match k {
        TokenType::PLUS => Some(ArithOp::Add),
        TokenType::MINUS => Some(ArithOp::Sub),
        TokenType::STAR => Some(ArithOp::Mul),
        TokenType::SLASH => Some(ArithOp::Div),
        _ => None,
    }
}

/// True of the six comparison operators.
pub open spec fn is_comparison(k: TokenType) -> bool {
    k == TokenType::GREATER || k == TokenType::GREATER_EQUAL || k == TokenType::LESS || k
        == TokenType::LESS_EQUAL || k == TokenType::EQUAL_EQUAL || k == TokenType::BANG_EQUAL
}

/// Whether a comparison operator holds of two operands that compare as `o`.
pub open spec fn holds(k: TokenType, o: Order) -> bool {
    match k {
        TokenType::GREATER => o == Order::Greater,
        TokenType::GREATER_EQUAL => o == Order::Greater || o == Order::Equal,
        TokenType::LESS => o == Order::Less,
        TokenType::LESS_EQUAL => o == Order::Less || o == Order::Equal,
        TokenType::EQUAL_EQUAL => o == Order::Equal,
        _ => o != Order::Equal,
    }
}

/// How two integers compare.
pub open spec fn int_order(x: int, y: int) -> Order {
    if x < y {
        Order::Less
    } else if x == y {
        Order::Equal
    } else {
        Order::Greater
    }
}

/// True of a zero divisor, integer or floating-point of either sign.
pub open spec fn is_zero_number(n: Num) -> bool {
    match n {
        Num::Int(x) => x == 0,
        Num::Float(b) => is_zero_bits(b),
    }
}

/// The exact result of an integer operation `+`, `-` or `*`.
pub open spec fn int_arith(o: ArithOp, x: int, y: int) -> int {
    match o {
        ArithOp::Add => x + y,
        ArithOp::Sub => x - y,
        _ => x * y,
    }
}

/// The value that a floating-point answer gives.
pub open spec fn float_result(a: Answer, op: Tok) -> Result<Val, Fault> {
    match a {
        Answer::Bits(b) => Ok(Val::Float(b)),
        _ => Err(Fault::NoFloatResult(op)),
    }
}

/// `n` copies of `s`, none when `n` is not positive.
pub open spec fn repeat(s: Seq<char>, n: int) -> Seq<char>
    decreases n,
{
    if n <= 0 {
        Seq::empty()
    } else {
        repeat(s, n - 1) + s
    }
}

/// Lexicographic order of the characters from index `i` on.
pub open spec fn lex_less_from(a: Seq<char>, b: Seq<char>, i: int) -> bool
    decreases a.len() - i,
{
    if i < 0 || i >= a.len() {
        0 <= i < b.len()
    } else if i >= b.len() {
        false
    } else if a[i] != b[i] {
        (a[i] as u32) < (b[i] as u32)
    } else {
        lex_less_from(a, b, i + 1)
    }
}

/// Lexicographic order of two texts.
pub open spec fn lex_less(a: Seq<char>, b: Seq<char>) -> bool {
    lex_less_from(a, b, 0)
}

/// A binary operator on two numbers.
pub open spec fn numeric(
    l: Val,
    a: Num,
    op: Tok,
    r: Val,
    b: Num,
    m: spec_fn(Query) -> Answer,
) -> Result<Val, Fault> {
    let k = op.kind;
    if arith_of(k) is Some {
        let o = arith_of(k)->0;
        match (a, b) {
            (Num::Int(x), Num::Int(y)) if k != TokenType::SLASH => Ok(
                Val::Int(int_arith(o, x, y)),
            ),
            _ => if k == TokenType::SLASH && is_zero_number(b) {
                Err(Fault::ZeroDivision(op))
            } else {
                float_result(m(Query::Arith(o, a, b)), op)
            },
        }
    } else if is_comparison(k) {
        match (a, b) {
            (Num::Int(x), Num::Int(y)) => Ok(bool_val(holds(k, int_order(x, y)))),
            _ => match m(Query::Compare(a, b)) {
                Answer::Order(o) => Ok(bool_val(holds(k, o))),
                _ => Err(Fault::NoFloatResult(op)),
            },
        }
    } else {
        Err(Fault::InvalidBinary(l, op, r))
    }
}

/// A binary operator on two texts.
pub open spec fn textual(s: Seq<char>, op: Tok, t: Seq<char>) -> Result<Val, Fault> {
    match op.kind {
        TokenType::PLUS => Ok(Val::Str(s + t)),
        TokenType::EQUAL_EQUAL => Ok(bool_val(s == t)),
        TokenType::BANG_EQUAL => Ok(bool_val(s != t)),
        TokenType::GREATER => Ok(bool_val(lex_less(t, s))),
        TokenType::LESS => Ok(bool_val(lex_less(s, t))),
        _ => Err(Fault::InvalidBinary(Val::Str(s), op, Val::Str(t))),
    }
}

/// What a binary operator gives on two values.
pub open spec fn binary(l: Val, op: Tok, r: Val, m: spec_fn(Query) -> Answer) -> Result<
    Val,
    Fault,
> {
    if number_of(l) is Some && number_of(r) is Some {
        numeric(l, number_of(l)->0, op, r, number_of(r)->0, m)
    } else {
        match (l, r) {
            (Val::Str(s), Val::Int(n)) if op.kind == TokenType::STAR => Ok(
                Val::Str(repeat(s, n as int)),
            ),
            (Val::Int(n), Val::Str(s)) if op.kind == TokenType::STAR => Ok(
                Val::Str(repeat(s, n as int)),
            ),
            (Val::Str(s), Val::Str(t)) => textual(s, op, t),
            _ => Err(Fault::InvalidBinary(l, op, r)),
        }
    }
}

/// The falsy conversion: `None` for an identifier, which it is not defined on.
pub open spec fn falsy(v: Val) -> Option<Val> {
    match v {
        Val::Int(x) => Some(bool_val(x == 0)),
        Val::Float(b) => Some(bool_val(is_zero_bits(b))),
        Val::Str(s) => Some(bool_val(s.len() == 0)),
        Val::Ident(_) => None,
        Val::True => Some(Val::False),
        Val::False => Some(Val::True),
        Val::Nil => Some(Val::True),
    }
}

/// What a unary operator gives on a value.
pub open spec fn unary(op: Tok, v: Val) -> Result<Val, Fault> {
    match op.kind {
        TokenType::MINUS => match v {
            Val::Int(x) => Ok(Val::Int(-x)),
            _ => Err(Fault::InvalidUnary(v, op)),
        },
        TokenType::BANG => match falsy(v) {
            Some(r) => Ok(r),
            None => Err(Fault::InvalidUnary(v, op)),
        },
        _ => Err(Fault::InvalidUnary(v, op)),
    }
}

/// The value of an expression; the left operand is evaluated first, and the
/// first error ends the evaluation.
pub open spec fn eval(e: Ex, m: spec_fn(Query) -> Answer) -> Result<Val, Fault>
    decreases e,
{
    match e {
        Ex::Binary(l, op, r) => match eval(*l, m) {
            Err(f) => Err(f),
            Ok(a) => match eval(*r, m) {
                Err(f) => Err(f),
                Ok(b) => binary(a, op, b, m),
            },
        },
        Ex::Unary(op, r) => match eval(*r, m) {
            Err(f) => Err(f),
            Ok(v) => unary(op, v),
        },
        Ex::Grouping(x) => eval(*x, m),
        Ex::Literal(v) => Ok(v),
        Ex::Variable(t) => Err(Fault::UndefinedVariable(t)),
    }
}

/// True when a binary operator on these values asks the floating-point unit:
/// arithmetic other than on two integers (and other than a division by zero),
/// and a comparison other than of two integers.
pub open spec fn needs_unit(l: Val, op: Tok, r: Val) -> bool {
    number_of(l) is Some && number_of(r) is Some && {
        let k = op.kind;
        let a = number_of(l)->0;
        let b = number_of(r)->0;
        let both_int = a is Int && b is Int;
        if arith_of(k) is Some {
            !(both_int && k != TokenType::SLASH) && !(k == TokenType::SLASH && is_zero_number(b))
        } else {
            is_comparison(k) && !both_int
        }
    }
}

/// The value of an expression when its evaluation never asks the
/// floating-point unit; `None` when it would ask.
pub open spec fn settled(e: Ex) -> Option<Result<Val, Fault>>
    decreases e,
{
    match e {
        Ex::Binary(l, op, r) => match settled(*l) {
            None => None,
            Some(Err(f)) => Some(Err(f)),
            Some(Ok(a)) => match settled(*r) {
                None => None,
                Some(Err(f)) => Some(Err(f)),
                Some(Ok(b)) => if needs_unit(a, op, b) {
                    None
                } else {
                    Some(binary(a, op, b, silent()))
                },
            },
        },
        Ex::Unary(op, r) => match settled(*r) {
            None => None,
            Some(Err(f)) => Some(Err(f)),
            Some(Ok(v)) => Some(unary(op, v)),
        },
        Ex::Grouping(x) => settled(*x),
        Ex::Literal(v) => Some(Ok(v)),
        Ex::Variable(t) => Some(Err(Fault::UndefinedVariable(t))),
    }
}

fn number(v: &LiteralValue) -> (r: Option<Number>)
    ensures
        match r {
            Some(n) => number_of(v@) == Some(n@),
            None => number_of(v@) is None,
        },
{
    match v {
        LiteralValue::IntValue(x) => Some(Number::Int(x.copy())),
        LiteralValue::FValue(b) => Some(Number::Float(*b)),
        _ => None,
    }
}

fn arith(k: TokenType) -> (r: Option<ArithOp>)
    ensures
        r == arith_of(k),
{
    match k {
        TokenType::PLUS => Some(ArithOp::Add),
        TokenType::MINUS => Some(ArithOp::Sub),
        TokenType::STAR => Some(ArithOp::Mul),
        TokenType::SLASH => Some(ArithOp::Div),
        _ => None,
    }
}

fn test_order(k: TokenType, o: Order) -> (r: bool)
    ensures
        r == holds(k, o),
{
    match k {
        TokenType::GREATER => o == Order::Greater,
        TokenType::GREATER_EQUAL => o == Order::Greater || o == Order::Equal,
        TokenType::LESS => o == Order::Less,
        TokenType::LESS_EQUAL => o == Order::Less || o == Order::Equal,
        TokenType::EQUAL_EQUAL => o == Order::Equal,
        _ => o != Order::Equal,
    }
}

fn is_zero(n: &Number) -> (r: bool)
    ensures
        r == is_zero_number(n@),
{
    match n {
        Number::Int(x) => x.is_zero(),
        Number::Float(b) => float_is_zero(*b),
    }
}

fn integer_arith(o: ArithOp, x: &BigInt, y: &BigInt) -> (r: BigInt)
    requires
        o != ArithOp::Div,
    ensures
        r@ == int_arith(o, x@, y@),
{
    match o {
        ArithOp::Add => x.add(y),
        ArithOp::Sub => x.sub(y),
        _ => x.mul(y),
    }
}

/// How two integers compare.
pub fn compare_ints(x: &BigInt, y: &BigInt) -> (r: Order)
    ensures
        r == int_order(x@, y@),
{
    let d = x.sub(y);
    if d.is_zero() {
        Order::Equal
    } else if d.is_negative() {
        Order::Less
    } else {
        Order::Greater
    }
}

/// Repeats `s` `n` times; a count that is not positive gives the empty text.
pub fn repeat_text(s: &String, n: &BigInt) -> (r: String)
    ensures
        r@ == repeat(s@, n@),
{
    let mut ans = String::new();
    if n.is_negative() || n.is_zero() {
        return ans;
    }
    let one = BigInt::from_u64(1);
    let mut c = n.copy();
    assert(repeat(s@, 0) == Seq::<char>::empty());
    while !c.is_zero()
        invariant
            0 <= c@ <= n@,
            one@ == 1,
            ans@ == repeat(s@, n@ - c@),
        decreases c@,
    {
        ans.append(s.as_str());
        c = c.sub(&one);
    }
    ans
}

/// Whether `a` comes before `b` in lexicographic order.
pub fn text_less(a: &String, b: &String) -> (r: bool)
    ensures
        r == lex_less(a@, b@),
{
    let sa = a.as_str();
    let sb = b.as_str();
    let la = sa.unicode_len();
    let lb = sb.unicode_len();
    let mut i: usize = 0;
    while i < la && i < lb
        invariant
            la == sa@.len(),
            lb == sb@.len(),
            i <= la,
            i <= lb,
            sa@ == a@,
            sb@ == b@,
            lex_less_from(a@, b@, i as int) == lex_less(a@, b@),
        decreases la - i,
    {
        let x = sa.get_char(i);
        let y = sb.get_char(i);
        if x != y {
            return (x as u32) < (y as u32);
        }
        i = i + 1;
    }
    i < lb
}

fn numeric_exec<F: Fn(FloatQuery) -> FloatAnswer>(
    l: LiteralValue,
    operator: &Token,
    r: LiteralValue,
    unit: &F,
) -> (res: Result<LiteralValue, Error>)
    requires
        ready(*unit),
        number_of(l@) is Some,
        number_of(r@) is Some,
    ensures
        forall|m: spec_fn(Query) -> Answer|
            follows(*unit, m) ==> outcome(res) == numeric(
                l@,
                number_of(l@)->0,
                operator@,
                r@,
                number_of(r@)->0,
                m,
            ),
        !needs_unit(l@, operator@, r@) ==> outcome(res) == numeric(
            l@,
            number_of(l@)->0,
            operator@,
            r@,
            number_of(r@)->0,
            silent(),
        ),
        operator.token_type == TokenType::SLASH ==> !(res matches Ok(LiteralValue::IntValue(_))),
{
    let k = operator.token_type;
    match arith(k) {
        Some(o) => {
            match (&l, &r) {
                (LiteralValue::IntValue(x), LiteralValue::IntValue(y)) if k != TokenType::SLASH => {
                    return Ok(LiteralValue::IntValue(integer_arith(o, x, y)));
                },
                _ => {},
            }
            if k == TokenType::SLASH && is_zero(&number(&r).unwrap()) {
                return Err(Error::ZeroDivisionError(operator.duplicate()));
            }
            match ask(unit, FloatQuery::Arith(o, number(&l).unwrap(), number(&r).unwrap())) {
                FloatAnswer::Bits(z) => Ok(LiteralValue::FValue(z)),
                _ => Err(Error::NoFloatResult(operator.duplicate())),
            }
        },
        None => {
            let cmp = k == TokenType::GREATER || k == TokenType::GREATER_EQUAL || k
                == TokenType::LESS || k == TokenType::LESS_EQUAL || k == TokenType::EQUAL_EQUAL
                || k == TokenType::BANG_EQUAL;
            if !cmp {
                return Err(Error::InvalidBinaryOperation(l, operator.duplicate(), r));
            }
            match (&l, &r) {
                (LiteralValue::IntValue(x), LiteralValue::IntValue(y)) => {
                    return Ok(LiteralValue::from_bool(test_order(k, compare_ints(x, y))));
                },
                _ => {},
            }
            match ask(unit, FloatQuery::Compare(number(&l).unwrap(), number(&r).unwrap())) {
                FloatAnswer::Order(o) => Ok(LiteralValue::from_bool(test_order(k, o))),
                _ => Err(Error::NoFloatResult(operator.duplicate())),
            }
        },
    }
}

fn textual_exec(s: String, operator: &Token, t: String) -> (res: Result<LiteralValue, Error>)
    ensures
        outcome(res) == textual(s@, operator@, t@),
{
    match operator.token_type {
        TokenType::PLUS => {
            let mut c = s;
            c.append(t.as_str());
            Ok(LiteralValue::StringValue(c))
        },
        TokenType::EQUAL_EQUAL => Ok(LiteralValue::from_bool(s == t)),
        TokenType::BANG_EQUAL => Ok(LiteralValue::from_bool(!(s == t))),
        TokenType::GREATER => Ok(LiteralValue::from_bool(text_less(&t, &s))),
        TokenType::LESS => Ok(LiteralValue::from_bool(text_less(&s, &t))),
        _ => Err(
            Error::InvalidBinaryOperation(
                LiteralValue::StringValue(s),
                operator.duplicate(),
                LiteralValue::StringValue(t),
            ),
        ),
    }
}

/// Applies a binary operator to two values.
pub fn apply_binary<F: Fn(FloatQuery) -> FloatAnswer>(
    left: LiteralValue,
    operator: &Token,
    right: LiteralValue,
    unit: &F,
) -> (res: Result<LiteralValue, Error>)
    requires
        ready(*unit),
    ensures
        forall|m: spec_fn(Query) -> Answer|
            follows(*unit, m) ==> outcome(res) == binary(left@, operator@, right@, m),
        !needs_unit(left@, operator@, right@) ==> outcome(res) == binary(
            left@,
            operator@,
            right@,
            silent(),
        ),
        operator.token_type == TokenType::SLASH ==> !(res matches Ok(LiteralValue::IntValue(_))),
{
    if number(&left).is_some() && number(&right).is_some() {
        return numeric_exec(left, operator, right, unit);
    }
    let star = operator.token_type == TokenType::STAR;
    match (left, right) {
        (LiteralValue::StringValue(s), LiteralValue::IntValue(n)) if star => Ok(
            LiteralValue::StringValue(repeat_text(&s, &n)),
        ),
        (LiteralValue::IntValue(n), LiteralValue::StringValue(s)) if star => Ok(
            LiteralValue::StringValue(repeat_text(&s, &n)),
        ),
        (LiteralValue::StringValue(s), LiteralValue::StringValue(t)) => textual_exec(
            s,
            operator,
            t,
        ),
        (l, r) => Err(Error::InvalidBinaryOperation(l, operator.duplicate(), r)),
    }
}

impl LiteralValue {
    /// The falsy conversion; `None` for an identifier, which it is not defined on.
    pub fn is_falsy(&self) -> (r: Option<LiteralValue>)
        ensures
            match r {
                Some(v) => falsy(self@) == Some(v@),
                None => falsy(self@) is None,
            },
    {
        match self {
            LiteralValue::IntValue(x) => Some(LiteralValue::from_bool(x.is_zero())),
            LiteralValue::FValue(b) => Some(LiteralValue::from_bool(float_is_zero(*b))),
            LiteralValue::StringValue(s) => Some(LiteralValue::from_bool(s.as_str().unicode_len() == 0)),
            LiteralValue::IdentifierValue(_) => None,
            LiteralValue::True => Some(LiteralValue::False),
            LiteralValue::False => Some(LiteralValue::True),
            LiteralValue::Nil => Some(LiteralValue::True),
        }
    }
}

/// Applies a unary operator to a value.
pub fn apply_unary(operator: &Token, value: LiteralValue) -> (res: Result<LiteralValue, Error>)
    ensures
        outcome(res) == unary(operator@, value@),
{
    match operator.token_type {
        TokenType::MINUS => match value {
            LiteralValue::IntValue(x) => Ok(LiteralValue::IntValue(x.neg())),
            v => Err(Error::InvalidUnaryOperation(v, operator.duplicate())),
        },
        TokenType::BANG => match value.is_falsy() {
            Some(r) => Ok(r),
            None => Err(Error::InvalidUnaryOperation(value, operator.duplicate())),
        },
        _ => Err(Error::InvalidUnaryOperation(value, operator.duplicate())),
    }
}

impl Expression {
    /// Evaluates the expression.
    pub fn evaluate<F: Fn(FloatQuery) -> FloatAnswer>(&self, unit: &F) -> (r: Result<
        LiteralValue,
        Error,
    >)
        requires
            ready(*unit),
        ensures
            forall|m: spec_fn(Query) -> Answer|
                follows(*unit, m) ==> outcome(r) == eval(self@, m),
            settled(self@) matches Some(v) ==> outcome(r) == v,
            self@ matches Ex::Binary(_, op, _) && op.kind == TokenType::SLASH ==> !(r matches Ok(
                LiteralValue::IntValue(_),
            )),
        decreases self,
    {
        match self {
            Expression::Binary { left, operator, right } => {
                let a = match left.evaluate(unit) {
                    Ok(v) => v,
                    Err(e) => return Err(e),
                };
                let b = match right.evaluate(unit) {
                    Ok(v) => v,
                    Err(e) => return Err(e),
                };
                apply_binary(a, operator, b, unit)
            },
            Expression::Unary { operator, right } => {
                let v = match right.evaluate(unit) {
                    Ok(v) => v,
                    Err(e) => return Err(e),
                };
                apply_unary(operator, v)
            },
            Expression::Grouping { expression } => expression.evaluate(unit),
            Expression::Literal { value } => Ok(value.duplicate()),
            Expression::Variable { name } => Err(Error::UndefinedVariable(name.duplicate())),
        }
    }
}

/// The text of an expression, fully parenthesized with operators first.
pub open spec fn show(e: Ex, m: spec_fn(Query) -> Answer) -> Seq<char>
    decreases e,
{
    match e {
        Ex::Binary(l, op, r) => "("@ + op.lexeme + " "@ + show(*l, m) + " "@ + show(*r, m) + ")"@,
        Ex::Unary(op, r) => "("@ + op.lexeme + " "@ + show(*r, m) + ")"@,
        Ex::Grouping(x) => "(GROUP : "@ + show(*x, m) + ")"@,
        Ex::Literal(v) => render(v, m),
        Ex::Variable(t) => t.lexeme,
    }
}

/// The tree holds no floating-point literal, so writing it asks no unit.
pub open spec fn floatless(e: Ex) -> bool
    decreases e,
{
    match e {
        Ex::Binary(l, _, r) => floatless(*l) && floatless(*r),
        Ex::Unary(_, r) => floatless(*r),
        Ex::Grouping(x) => floatless(*x),
        Ex::Literal(v) => !(v is Float),
        Ex::Variable(_) => true,
    }
}

impl Expression {
    /// The text of the expression.
    pub fn to_string<F: Fn(FloatQuery) -> FloatAnswer>(&self, unit: &F) -> (r: String)
        requires
            ready(*unit),
        ensures
            forall|m: spec_fn(Query) -> Answer| follows(*unit, m) ==> r@ == show(self@, m),
            floatless(self@) ==> r@ == show(self@, silent()),
        decreases self,
    {
        match self {
            Expression::Binary { left, operator, right } => {
                let mut s = String::from_str("(");
                s.append(operator.lexeme.as_str());
                s.append(" ");
                s.append(left.to_string(unit).as_str());
                s.append(" ");
                s.append(right.to_string(unit).as_str());
                s.append(")");
                s
            },
            Expression::Unary { operator, right } => {
                let mut s = String::from_str("(");
                s.append(operator.lexeme.as_str());
                s.append(" ");
                s.append(right.to_string(unit).as_str());
                s.append(")");
                s
            },
            Expression::Grouping { expression } => {
                let mut s = String::from_str("(GROUP : ");
                s.append(expression.to_string(unit).as_str());
                s.append(")");
                s
            },
            Expression::Literal { value } => value.to_string(unit),
            Expression::Variable { name } => name.lexeme.clone(),
        }
    }
}

} // verus!
