//! Statements.
use crate::expressions::{Ex, Expression};
use crate::token::{Tok, Token};
use vstd::prelude::*;

verus! {

/// A statement of the language.
pub enum Statement {
    /// Evaluated for effect; its value is dropped.
    ExpressionStatement(Expression),
    /// Evaluated, and its value written out.
    PrintStatement(Expression),
    /// A variable declaration with its initializer.
    Variable(Token, Expression),
}

/// The model of a statement.
pub enum Stmt {
    Expression(Ex),
    Print(Ex),
    Variable(Tok, Ex),
}

impl View for Statement {
    type V = Stmt;

    open spec fn view(&self) -> Stmt {
        match self {
            Statement::ExpressionStatement(e) => Stmt::Expression(e@),
            Statement::PrintStatement(e) => Stmt::Print(e@),
            Statement::Variable(t, e) => Stmt::Variable(t@, e@),
        }
    }
}

/// The models of a sequence of statements.
pub open spec fn stmts(v: Seq<Statement>) -> Seq<Stmt> {
    v.map_values(|s: Statement| s@)
}

} // verus!
