//! The interface to the host's floating-point unit.
//!
//! The library holds a floating-point value as its IEEE-754 bit pattern and
//! never computes on it itself: every operation that needs floating-point
//! arithmetic is put to the host as a [`FloatQuery`] through a closure, and the
//! contracts say what the library does with each answer. They are stated for
//! every model `m` that the closure follows: the result is what the semantics
//! gives when `m` answers the queries.
use crate::bigint::BigInt;
use vstd::prelude::*;

verus! {

/// An operand of a floating-point operation: an integer is converted first.
#[derive(Debug)]
pub enum Number {
    Int(BigInt),
    Float(u64),
}

/// The model of an operand.
pub enum Num {
    Int(int),
    Float(u64),
}

impl View for Number {
    type V = Num;

    open spec fn view(&self) -> Num {
        match self {
            Number::Int(x) => Num::Int(x@),
            Number::Float(b) => Num::Float(*b),
        }
    }
}

/// The four arithmetic operations.
#[derive(Clone, Copy, Debug, PartialEq, Eq, Structural)]
pub enum ArithOp {
    Add,
    Sub,
    Mul,
    Div,
}

/// The outcome of comparing two numbers; `Unordered` when one is not a number.
#[derive(Clone, Copy, Debug, PartialEq, Eq, Structural)]
pub enum Order {
    Less,
    Equal,
    Greater,
    Unordered,
}

/// A question to the floating-point unit.
#[derive(Debug)]
pub enum FloatQuery {
    /// The value of a decimal literal `digits.digits`.
    Parse(String),
    /// The result of an arithmetic operation, in floating point.
    Arith(ArithOp, Number, Number),
    /// How two numbers compare, in floating point.
    Compare(Number, Number),
    /// The text of a floating-point value.
    Render(u64),
}

/// An answer of the floating-point unit.
#[derive(Clone, Debug)]
pub enum FloatAnswer {
    Bits(u64),
    Order(Order),
    Text(String),
}

/// The model of a query.
pub enum Query {
    Parse(Seq<char>),
    Arith(ArithOp, Num, Num),
    Compare(Num, Num),
    Render(u64),
}

/// The model of an answer.
pub enum Answer {
    Bits(u64),
    Order(Order),
    Text(Seq<char>),
}

impl View for FloatQuery {
    type V = Query;

    open spec fn view(&self) -> Query {
        match self {
            FloatQuery::Parse(s) => Query::Parse(s@),
            FloatQuery::Arith(op, a, b) => Query::Arith(*op, a@, b@),
            FloatQuery::Compare(a, b) => Query::Compare(a@, b@),
            FloatQuery::Render(b) => Query::Render(*b),
        }
    }
}

impl View for FloatAnswer {
    type V = Answer;

    open spec fn view(&self) -> Answer {
        match self {
            FloatAnswer::Bits(b) => Answer::Bits(*b),
            FloatAnswer::Order(o) => Answer::Order(*o),
            FloatAnswer::Text(s) => Answer::Text(s@),
        }
    }
}

/// The unit can be asked anything.
pub open spec fn ready<F: Fn(FloatQuery) -> FloatAnswer>(unit: F) -> bool {
    forall|q: FloatQuery| #[trigger] unit.requires((q,))
}

/// Every answer of the unit is the one that the model `m` gives.
pub open spec fn follows<F: Fn(FloatQuery) -> FloatAnswer>(
    unit: F,
    m: spec_fn(Query) -> Answer,
) -> bool {
    forall|q: FloatQuery, a: FloatAnswer| #[trigger] unit.ensures((q,), a) ==> a@ == m(q@)
}

/// Puts one question to the unit.
pub fn ask<F: Fn(FloatQuery) -> FloatAnswer>(unit: &F, q: FloatQuery) -> (a: FloatAnswer)
    requires
        ready(*unit),
    ensures
        forall|m: spec_fn(Query) -> Answer| follows(*unit, m) ==> a@ == m(q@),
{
    let ghost gq = q;
    let a = unit(q);
    assert(unit.ensures((gq,), a));
    a
}

/// A model of the unit for operations that read no answer of it.
pub open spec fn silent() -> spec_fn(Query) -> Answer {
    |q: Query| Answer::Order(Order::Unordered)
}

/// True when the bit pattern is a floating-point zero, of either sign.
pub open spec fn is_zero_bits(b: u64) -> bool {
    b & 0x7fff_ffff_ffff_ffff == 0
}

/// Tests a bit pattern for a floating-point zero.
pub fn float_is_zero(b: u64) -> (r: bool)
    ensures
        r == is_zero_bits(b),
{
    b & 0x7fff_ffff_ffff_ffff == 0
}

} // verus!
